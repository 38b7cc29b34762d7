//! What one paint of the manager window draws, in order.
//!
//! A paint is a list of drawing operations in physical pixels; executing them is
//! left to the graphics layer. Content is clipped to the viewport and moved up
//! by the scroll offset; the footer is drawn over it, in window space.
use vstd::prelude::*;

use crate::components::Component;
use crate::geometry::{self, Edges};
use crate::installer::app::Manager;
use crate::installer::view::{self, Hit, Layout, ViewRect};
use crate::text;

verus! {

/// One row's display data (a component or a startup entry).
#[derive(Debug, PartialEq, Eq)]
pub struct Row {
    pub name: String,
    /// Second line: a component's summary, or a startup entry's source and
    /// detail.
    pub detail: String,
    pub checked: bool,
}

/// Everything one paint needs.
pub struct Frame {
    pub layout: Layout,
    pub dpi: u32,
    pub scroll: i32,
    pub title: &'static str,
    pub subtitle: String,
    pub components: Vec<Row>,
    pub startup: Vec<Row>,
    pub status: String,
    pub hovered: Option<Hit>,
    /// Buttons are drawn dimmed while an apply or a restore runs.
    pub busy: bool,
}

/// The title of the window's content.
pub const TITLE: &'static str = "WinRestyle";

/// Whether `rows` are the component rows of a model.
pub open spec fn are_component_rows(rows: Seq<Row>, m: Manager) -> bool {
    let all = m.registry.components@;
    &&& rows.len() == all.len()
    &&& forall|i: int|
        #![trigger rows[i]]
        0 <= i < rows.len() ==> {
            &&& rows[i].name@ == all[i].name_text()
            &&& rows[i].detail@ == all[i].summary_text()
            &&& rows[i].checked == text::texts(m.selected@).contains(all[i].id_text())
        }
}

/// Whether `rows` are the startup rows of a model: the source and the detail of
/// each entry with a dot between them, and its checkbox.
pub open spec fn are_startup_rows(rows: Seq<Row>, m: Manager) -> bool {
    &&& rows.len() == m.entries@.len()
    &&& forall|i: int|
        #![trigger rows[i]]
        0 <= i < rows.len() ==> {
            &&& rows[i].name@ == m.entries@[i].name@
            &&& rows[i].detail@ == m.entries@[i].source.label_text() + " · "@
                + m.entries@[i].detail@
            &&& rows[i].checked == m.entry_checked@[i]
        }
}

/// The component rows of a model.
fn component_rows(m: &Manager) -> (r: Vec<Row>)
    ensures
        are_component_rows(r@, *m),
{
    let mut rows: Vec<Row> = Vec::new();
    let mut i: usize = 0;
    while i < m.registry.components.len()
        invariant
            i <= m.registry.components@.len(),
            rows@.len() == i,
            forall|k: int|
                #![trigger rows@[k]]
                0 <= k < i ==> {
                    let c = m.registry.components@[k];
                    &&& rows@[k].name@ == c.name_text()
                    &&& rows@[k].detail@ == c.summary_text()
                    &&& rows@[k].checked == text::texts(m.selected@).contains(c.id_text())
                },
        decreases m.registry.components@.len() - i,
    {
        let c = m.registry.components[i];
        rows.push(
            Row {
                name: c.name().to_owned(),
                detail: c.summary().to_owned(),
                checked: text::contains_text(&m.selected, c.id()),
            },
        );
        i = i + 1;
    }
    rows
}

/// The startup rows of a model.
fn startup_rows(m: &Manager) -> (r: Vec<Row>)
    requires
        m.is_valid(),
    ensures
        are_startup_rows(r@, *m),
{
    let mut rows: Vec<Row> = Vec::new();
    let mut i: usize = 0;
    while i < m.entries.len()
        invariant
            m.is_valid(),
            i <= m.entries@.len(),
            rows@.len() == i,
            forall|k: int|
                #![trigger rows@[k]]
                0 <= k < i ==> {
                    &&& rows@[k].name@ == m.entries@[k].name@
                    &&& rows@[k].detail@ == m.entries@[k].source.label_text() + " · "@
                        + m.entries@[k].detail@
                    &&& rows@[k].checked == m.entry_checked@[k]
                },
        decreases m.entries@.len() - i,
    {
        let entry = &m.entries[i];
        let source = text::joined(entry.source.label(), " · ");
        rows.push(
            Row {
                name: entry.name.clone(),
                detail: text::joined(source.as_str(), entry.detail.as_str()),
                checked: m.entry_checked[i],
            },
        );
        i = i + 1;
    }
    rows
}

impl Frame {
    /// Whether this is the frame of a model laid out in a window of that client
    /// size.
    pub open spec fn is_frame_of(&self, m: Manager, w: i32, h: i32) -> bool {
        &&& m.is_laid_out(self.layout, w, h)
        &&& self.dpi == m.dpi
        &&& self.scroll == m.scroll
        &&& self.title@ == TITLE@
        &&& self.subtitle@ == m.subtitle@
        &&& are_component_rows(self.components@, m)
        &&& are_startup_rows(self.startup@, m)
        &&& self.status@ == m.status@
        &&& self.hovered == m.hovered
        &&& self.busy == m.busy
    }
}

/// The frame of a model in a window of that client size.
pub fn paint_once(m: &Manager, w: i32, h: i32) -> (r: Frame)
    requires
        m.is_valid(),
        m.fits(w, h),
    ensures
        r.is_frame_of(*m, w, h),
{
    Frame {
        layout: m.current_layout(w, h),
        dpi: m.dpi,
        scroll: m.scroll,
        title: TITLE,
        subtitle: m.subtitle.clone(),
        components: component_rows(m),
        startup: startup_rows(m),
        status: m.status.clone(),
        hovered: m.hovered,
        busy: m.busy,
    }
}

/// A text's face.
#[derive(Debug, Clone, Copy, PartialEq, Eq, Structural)]
pub enum Font {
    /// 20 points, bold.
    Title,
    /// 11 points.
    Subtitle,
    /// 11 points, semi-bold.
    Section,
    /// 13 points, semi-bold.
    Name,
    /// 10 points.
    Detail,
    /// 12 points, semi-bold, centred.
    Button,
}

/// A text's colour.
#[derive(Debug, Clone, Copy, PartialEq, Eq, Structural)]
pub enum Ink {
    Plain,
    Dim,
    Danger,
}

/// A fill's colour.
#[derive(Debug, Clone, Copy, PartialEq, Eq, Structural)]
pub enum Paint {
    Row,
    RowHot,
    Accent,
    AccentHot,
    Secondary,
    SecondaryHot,
    Busy,
    Footer,
}

/// One drawing operation.
#[derive(Debug, PartialEq, Eq)]
pub enum DrawOp {
    Clear,
    /// Draw only above this line from here on.
    Clip { bottom: i32 },
    /// Move what follows up by this much.
    ScrollBy(i32),
    /// Draw everywhere and unmoved from here on.
    Unclip,
    Text { text: String, at: Edges, font: Font, ink: Ink, clip: bool },
    /// A filled region with rounded corners (square ones at radius 0).
    Fill { at: Edges, radius: i32, paint: Paint },
    /// The border of an unchecked box.
    Outline { at: Edges, radius: i32 },
    /// The two strokes of a checked box.
    CheckMark { at: Edges },
}

/// A drawing operation as a value.
#[verifier::ext_equal]
pub ghost enum OpModel {
    Clear,
    Clip { bottom: i32 },
    ScrollBy(i32),
    Unclip,
    Text { text: Seq<char>, at: Edges, font: Font, ink: Ink, clip: bool },
    Fill { at: Edges, radius: i32, paint: Paint },
    Outline { at: Edges, radius: i32 },
    CheckMark { at: Edges },
}

impl View for DrawOp {
    type V = OpModel;

    open spec fn view(&self) -> OpModel {
        match *self {
            DrawOp::Clear => OpModel::Clear,
            DrawOp::Clip { bottom } => OpModel::Clip { bottom },
            DrawOp::ScrollBy(dy) => OpModel::ScrollBy(dy),
            DrawOp::Unclip => OpModel::Unclip,
            DrawOp::Text { text, at, font, ink, clip } => OpModel::Text {
                text: text@,
                at,
                font,
                ink,
                clip,
            },
            DrawOp::Fill { at, radius, paint } => OpModel::Fill { at, radius, paint },
            DrawOp::Outline { at, radius } => OpModel::Outline { at, radius },
            DrawOp::CheckMark { at } => OpModel::CheckMark { at },
        }
    }
}

/// Drawing operations as values.
pub open spec fn ops_of(ops: Seq<DrawOp>) -> Seq<OpModel> {
    ops.map_values(|op: DrawOp| op@)
}

/// The region a rectangle covers.
pub open spec fn rect_edges(r: ViewRect) -> Edges {
    geometry::edges(r.x as int, r.y as int, r.x + r.w, r.y + r.h)
}

/// Where the checkbox of a row is.
pub open spec fn box_edges(row: ViewRect, dpi: u32) -> Edges {
    let side = view::extent(view::CHECKBOX as int, dpi);
    let left = row.x + view::at_dpi(view::CHECKBOX_PAD as int, dpi);
    let top = row.y + geometry::trunc_div(row.h - side, 2);
    geometry::edges(left, top, left + side, top + side)
}

/// The distance between a row's texts and what is beside them, at 96 DPI.
pub const TEXT_PAD: i32 = 12;

/// The corner radii at 96 DPI.
pub const ROW_RADIUS: i32 = 8;
pub const BOX_RADIUS: i32 = 5;

/// Where a row's texts begin: right of the checkbox.
pub open spec fn text_left(row: ViewRect, dpi: u32) -> int {
    row.x + view::at_dpi(view::CHECKBOX_PAD as int, dpi) + view::extent(
        view::CHECKBOX as int,
        dpi,
    ) + view::at_dpi(TEXT_PAD as int, dpi)
}

/// Where a row's texts end.
pub open spec fn text_right(row: ViewRect, dpi: u32) -> int {
    row.x + row.w - view::at_dpi(TEXT_PAD as int, dpi)
}

/// The line between a row's name and its detail.
pub open spec fn text_middle(row: ViewRect) -> int {
    row.y + geometry::trunc_div(row.h as int, 2)
}

/// A text, of which an empty one draws nothing.
pub open spec fn text_ops(
    text: Seq<char>,
    at: Edges,
    font: Font,
    ink: Ink,
    clip: bool,
) -> Seq<OpModel> {
    if text.len() == 0 {
        Seq::empty()
    } else {
        seq![OpModel::Text { text, at, font, ink, clip }]
    }
}

/// A row: its ground, its checkbox, and its two lines.
pub open spec fn row_ops(row: Row, rect: ViewRect, hot: bool, dpi: u32) -> Seq<OpModel> {
    let at = box_edges(rect, dpi);
    let radius = geometry::scaled(BOX_RADIUS as int, dpi as int);
    let left = text_left(rect, dpi);
    let right = text_right(rect, dpi);
    let middle = text_middle(rect);
    seq![
        OpModel::Fill {
            at: rect_edges(rect),
            radius: geometry::scaled(ROW_RADIUS as int, dpi as int),
            paint: if hot {
                Paint::RowHot
            } else {
                Paint::Row
            },
        },
    ] + (if row.checked {
        seq![OpModel::Fill { at, radius, paint: Paint::Accent }, OpModel::CheckMark { at }]
    } else {
        seq![OpModel::Outline { at, radius }]
    }) + text_ops(
        row.name@,
        geometry::edges(left, rect.y as int, right, middle),
        Font::Name,
        Ink::Plain,
        true,
    ) + text_ops(
        row.detail@,
        geometry::edges(left, middle, right, rect.y + rect.h),
        Font::Detail,
        Ink::Dim,
        true,
    )
}

/// The hit that row `i` of a list is.
pub open spec fn row_hit(startup: bool, i: int) -> Hit {
    if startup {
        Hit::Startup(i as usize)
    } else {
        Hit::Component(i as usize)
    }
}

/// The first `n` rows of a list.
pub open spec fn rows_ops(
    rows: Seq<Row>,
    rects: Seq<ViewRect>,
    startup: bool,
    hovered: Option<Hit>,
    dpi: u32,
    n: int,
) -> Seq<OpModel>
    decreases n,
{
    if n <= 0 {
        Seq::empty()
    } else {
        rows_ops(rows, rects, startup, hovered, dpi, n - 1) + row_ops(
            rows[n - 1],
            rects[n - 1],
            hovered == Some(row_hit(startup, n - 1)),
            dpi,
        )
    }
}

/// A button's ground: dimmed while busy, and brighter under the mouse.
pub open spec fn button_paint(primary: bool, hot: bool, busy: bool) -> Paint {
    if busy {
        Paint::Busy
    } else if primary {
        if hot {
            Paint::AccentHot
        } else {
            Paint::Accent
        }
    } else if hot {
        Paint::SecondaryHot
    } else {
        Paint::Secondary
    }
}

/// A button: its ground and its label, which reads as a way out where the
/// button is the secondary one.
pub open spec fn button_ops(
    rect: ViewRect,
    label: Seq<char>,
    primary: bool,
    hot: bool,
    busy: bool,
    dpi: u32,
) -> Seq<OpModel> {
    seq![
        OpModel::Fill {
            at: rect_edges(rect),
            radius: geometry::scaled(ROW_RADIUS as int, dpi as int),
            paint: button_paint(primary, hot, busy),
        },
    ] + text_ops(
        label,
        rect_edges(rect),
        Font::Button,
        if !primary && !busy {
            Ink::Danger
        } else {
            Ink::Plain
        },
        false,
    )
}

/// The line where the startup list would be, one header's height below its
/// header.
pub open spec fn empty_edges(header: ViewRect) -> Edges {
    geometry::edges(
        header.x as int,
        header.y + header.h,
        header.x + header.w,
        header.y + header.h + header.h,
    )
}

/// The content of a frame, in content space.
pub open spec fn content_ops(f: Frame) -> Seq<OpModel> {
    let l = f.layout;
    text_ops(f.title@, rect_edges(l.title), Font::Title, Ink::Plain, false) + text_ops(
        f.subtitle@,
        rect_edges(l.subtitle),
        Font::Subtitle,
        Ink::Dim,
        true,
    ) + text_ops(
        "COMPONENTS"@,
        rect_edges(l.components_header),
        Font::Section,
        Ink::Dim,
        false,
    ) + rows_ops(
        f.components@,
        l.components@,
        false,
        f.hovered,
        f.dpi,
        geometry::min_of(f.components@.len() as int, l.components@.len() as int),
    ) + text_ops(
        "STARTUP PROGRAMS"@,
        rect_edges(l.startup_header),
        Font::Section,
        Ink::Dim,
        false,
    ) + (if f.startup@.len() == 0 {
        text_ops(
            "No logon startup programs found."@,
            empty_edges(l.startup_header),
            Font::Detail,
            Ink::Dim,
            true,
        )
    } else {
        Seq::empty()
    }) + rows_ops(
        f.startup@,
        l.startup@,
        true,
        f.hovered,
        f.dpi,
        geometry::min_of(f.startup@.len() as int, l.startup@.len() as int),
    )
}

/// The footer of a frame, in window space.
pub open spec fn footer_ops(f: Frame) -> Seq<OpModel> {
    let l = f.layout;
    seq![OpModel::Fill { at: rect_edges(l.footer), radius: 0, paint: Paint::Footer }] + text_ops(
        f.status@,
        rect_edges(l.status),
        Font::Detail,
        Ink::Dim,
        true,
    ) + button_ops(
        l.restore_btn,
        "Undo / Restore"@,
        false,
        f.hovered == Some(Hit::Restore),
        f.busy,
        f.dpi,
    ) + button_ops(
        l.restyle_btn,
        "Restyle Now"@,
        true,
        f.hovered == Some(Hit::RestyleNow),
        f.busy,
        f.dpi,
    )
}

/// Everything a paint of a frame draws.
pub open spec fn frame_ops(f: Frame) -> Seq<OpModel> {
    seq![
        OpModel::Clear,
        OpModel::Clip { bottom: f.layout.footer.y },
        OpModel::ScrollBy(f.scroll),
    ] + content_ops(f) + seq![OpModel::Unclip] + footer_ops(f)
}

/// The region a rectangle covers.
fn region(r: &ViewRect) -> (e: Edges)
    ensures
        e == rect_edges(*r),
{
    Edges {
        left: r.x as i64,
        top: r.y as i64,
        right: r.x as i64 + r.w as i64,
        bottom: r.y as i64 + r.h as i64,
    }
}

/// Append one operation.
fn push_op(ops: &mut Vec<DrawOp>, op: DrawOp)
    ensures
        ops_of(final(ops)@) == ops_of(old(ops)@) + seq![op@],
{
    ops.push(op);
    proof {
        assert(ops_of(ops@) =~= ops_of(old(ops)@) + seq![op@]);
    }
}

/// Append a text, unless it is empty.
fn draw_text(ops: &mut Vec<DrawOp>, text: &str, at: Edges, font: Font, ink: Ink, clip: bool)
    ensures
        ops_of(final(ops)@) == ops_of(old(ops)@) + text_ops(text@, at, font, ink, clip),
{
    if text.is_empty() {
        proof {
            assert(ops_of(ops@) + Seq::<OpModel>::empty() =~= ops_of(ops@));
        }
        return;
    }
    push_op(ops, DrawOp::Text { text: text.to_owned(), at, font, ink, clip });
}

/// Append a row.
fn draw_row(ops: &mut Vec<DrawOp>, row: &Row, rect: &ViewRect, hot: bool, dpi: u32)
    ensures
        ops_of(final(ops)@) == ops_of(old(ops)@) + row_ops(*row, *rect, hot, dpi),
{
    let ghost before = ops_of(ops@);
    push_op(
        ops,
        DrawOp::Fill {
            at: region(rect),
            radius: view::scale(ROW_RADIUS, dpi),
            paint: if hot {
                Paint::RowHot
            } else {
                Paint::Row
            },
        },
    );

    // The checkbox.
    let side: i64 = geometry::max_i32(view::scale(view::CHECKBOX, dpi), 1) as i64;
    let box_left: i64 = rect.x as i64 + view::scale(view::CHECKBOX_PAD, dpi) as i64;
    let box_top: i64 = rect.y as i64 + (rect.h as i64 - side) / 2;
    let at = Edges {
        left: box_left,
        top: box_top,
        right: box_left + side,
        bottom: box_top + side,
    };
    proof {
        assert(at == box_edges(*rect, dpi));
    }
    let radius: i32 = view::scale(BOX_RADIUS, dpi);
    if row.checked {
        push_op(ops, DrawOp::Fill { at, radius, paint: Paint::Accent });
        push_op(ops, DrawOp::CheckMark { at });
    } else {
        push_op(ops, DrawOp::Outline { at, radius });
    }
    let ghost boxed = ops_of(ops@);

    // Two text lines to the right of the checkbox.
    let pad: i64 = view::scale(TEXT_PAD, dpi) as i64;
    let left: i64 = box_left + side + pad;
    let right: i64 = rect.x as i64 + rect.w as i64 - pad;
    let middle: i64 = rect.y as i64 + geometry::half(rect.h) as i64;
    draw_text(
        ops,
        row.name.as_str(),
        Edges { left, top: rect.y as i64, right, bottom: middle },
        Font::Name,
        Ink::Plain,
        true,
    );
    draw_text(
        ops,
        row.detail.as_str(),
        Edges { left, top: middle, right, bottom: rect.y as i64 + rect.h as i64 },
        Font::Detail,
        Ink::Dim,
        true,
    );
    proof {
        assert(ops_of(ops@) =~= before + row_ops(*row, *rect, hot, dpi));
    }
}

/// Append the rows of a list.
fn draw_rows(
    ops: &mut Vec<DrawOp>,
    rows: &Vec<Row>,
    rects: &Vec<ViewRect>,
    startup: bool,
    hovered: Option<Hit>,
    dpi: u32,
)
    ensures
        ops_of(final(ops)@) == ops_of(old(ops)@) + rows_ops(
            rows@,
            rects@,
            startup,
            hovered,
            dpi,
            geometry::min_of(rows@.len() as int, rects@.len() as int),
        ),
{
    let ghost before = ops_of(ops@);
    let mut i: usize = 0;
    proof {
        assert(before =~= before + rows_ops(rows@, rects@, startup, hovered, dpi, 0));
    }
    while i < rows.len() && i < rects.len()
        invariant
            i <= rows@.len(),
            i <= rects@.len(),
            ops_of(ops@) == before + rows_ops(rows@, rects@, startup, hovered, dpi, i as int),
        decreases rows@.len() - i,
    {
        let hit = if startup {
            Hit::Startup(i)
        } else {
            Hit::Component(i)
        };
        let hot: bool = hovered == Some(hit);
        draw_row(ops, &rows[i], &rects[i], hot, dpi);
        proof {
            let drawn = rows_ops(rows@, rects@, startup, hovered, dpi, i as int);
            let next = row_ops(rows@[i as int], rects@[i as int], hot, dpi);
            assert((before + drawn) + next =~= before + (drawn + next));
        }
        i = i + 1;
    }
}

/// Append a button.
fn draw_button(
    ops: &mut Vec<DrawOp>,
    rect: &ViewRect,
    label: &str,
    primary: bool,
    hot: bool,
    busy: bool,
    dpi: u32,
)
    ensures
        ops_of(final(ops)@) == ops_of(old(ops)@) + button_ops(
            *rect,
            label@,
            primary,
            hot,
            busy,
            dpi,
        ),
{
    let ghost before = ops_of(ops@);
    let paint = if busy {
        Paint::Busy
    } else if primary {
        if hot {
            Paint::AccentHot
        } else {
            Paint::Accent
        }
    } else if hot {
        Paint::SecondaryHot
    } else {
        Paint::Secondary
    };
    let ink = if !primary && !busy {
        Ink::Danger
    } else {
        Ink::Plain
    };
    push_op(
        ops,
        DrawOp::Fill { at: region(rect), radius: view::scale(ROW_RADIUS, dpi), paint },
    );
    draw_text(ops, label, region(rect), Font::Button, ink, false);
    proof {
        assert(ops_of(ops@) =~= before + button_ops(*rect, label@, primary, hot, busy, dpi));
    }
}

/// Append the content of a frame.
fn draw_content(ops: &mut Vec<DrawOp>, f: &Frame)
    ensures
        ops_of(final(ops)@) == ops_of(old(ops)@) + content_ops(*f),
{
    let ghost before = ops_of(ops@);
    let l = &f.layout;
    draw_text(ops, f.title, region(&l.title), Font::Title, Ink::Plain, false);
    draw_text(ops, f.subtitle.as_str(), region(&l.subtitle), Font::Subtitle, Ink::Dim, true);
    draw_text(
        ops,
        "COMPONENTS",
        region(&l.components_header),
        Font::Section,
        Ink::Dim,
        false,
    );
    draw_rows(ops, &f.components, &l.components, false, f.hovered, f.dpi);
    draw_text(
        ops,
        "STARTUP PROGRAMS",
        region(&l.startup_header),
        Font::Section,
        Ink::Dim,
        false,
    );
    let ghost headed = ops_of(ops@);
    if f.startup.len() == 0 {
        // A helpful line where the list would be.
        let header = region(&l.startup_header);
        let h: i64 = l.startup_header.h as i64;
        draw_text(
            ops,
            "No logon startup programs found.",
            Edges { top: header.top + h, bottom: header.top + h + h, ..header },
            Font::Detail,
            Ink::Dim,
            true,
        );
    }
    proof {
        assert(headed =~= headed + Seq::<OpModel>::empty());
    }
    draw_rows(ops, &f.startup, &l.startup, true, f.hovered, f.dpi);
    proof {
        assert(ops_of(ops@) =~= before + content_ops(*f));
    }
}

/// Append the footer of a frame.
fn draw_footer(ops: &mut Vec<DrawOp>, f: &Frame)
    ensures
        ops_of(final(ops)@) == ops_of(old(ops)@) + footer_ops(*f),
{
    let ghost before = ops_of(ops@);
    let l = &f.layout;
    push_op(ops, DrawOp::Fill { at: region(&l.footer), radius: 0, paint: Paint::Footer });
    draw_text(ops, f.status.as_str(), region(&l.status), Font::Detail, Ink::Dim, true);
    draw_button(
        ops,
        &l.restore_btn,
        "Undo / Restore",
        false,
        f.hovered == Some(Hit::Restore),
        f.busy,
        f.dpi,
    );
    draw_button(
        ops,
        &l.restyle_btn,
        "Restyle Now",
        true,
        f.hovered == Some(Hit::RestyleNow),
        f.busy,
        f.dpi,
    );
    proof {
        assert(ops_of(ops@) =~= before + footer_ops(*f));
    }
}

/// Everything a paint of a frame draws, in order.
pub fn draw(f: &Frame) -> (r: Vec<DrawOp>)
    ensures
        ops_of(r@) == frame_ops(*f),
{
    let mut ops: Vec<DrawOp> = Vec::new();
    proof {
        assert(ops_of(ops@) =~= Seq::<OpModel>::empty());
    }
    push_op(&mut ops, DrawOp::Clear);
    push_op(&mut ops, DrawOp::Clip { bottom: f.layout.footer.y });
    push_op(&mut ops, DrawOp::ScrollBy(f.scroll));
    draw_content(&mut ops, f);
    push_op(&mut ops, DrawOp::Unclip);
    draw_footer(&mut ops, f);
    proof {
        assert(ops_of(ops@) =~= frame_ops(*f));
    }
    ops
}

/// A client area's extents, at least one pixel a side.
pub fn client_size(left: i32, top: i32, right: i32, bottom: i32) -> (r: (i32, i32))
    requires
        geometry::is_i32(right - left),
        geometry::is_i32(bottom - top),
    ensures
        r.0 == geometry::max_of(right - left, 1),
        r.1 == geometry::max_of(bottom - top, 1),
{
    (geometry::max_i32(right - left, 1), geometry::max_i32(bottom - top, 1))
}

/// The drawn checkbox of a row is the one that
/// [`Layout::checkbox_rect`](crate::installer::view::Layout::checkbox_rect)
/// gives.
pub proof fn law_the_drawn_box_is_the_checkbox(b: ViewRect, row: ViewRect, dpi: u32)
    requires
        view::is_checkbox_of(b, row, dpi),
    ensures
        box_edges(row, dpi) == rect_edges(b),
{
}

/// A frame is drawn from the back to the front: the ground, the content, clipped
/// to the viewport and scrolled, and the footer over it, unclipped and unmoved.
pub proof fn law_the_footer_is_drawn_over_the_content(f: Frame)
    ensures
        frame_ops(f).len() == content_ops(f).len() + footer_ops(f).len() + 4,
        frame_ops(f)[0] == OpModel::Clear,
        frame_ops(f)[1] == (OpModel::Clip { bottom: f.layout.footer.y }),
        frame_ops(f)[2] == OpModel::ScrollBy(f.scroll),
        frame_ops(f).subrange(3, 3 + content_ops(f).len() as int) == content_ops(f),
        frame_ops(f)[3 + content_ops(f).len() as int] == OpModel::Unclip,
        frame_ops(f).skip(4 + content_ops(f).len() as int) == footer_ops(f),
{
    let all = frame_ops(f);
    assert(all.subrange(3, 3 + content_ops(f).len() as int) =~= content_ops(f));
    assert(all.skip(4 + content_ops(f).len() as int) =~= footer_ops(f));
}

/// A text is drawn as it is, once, and an empty one not at all.
pub proof fn law_texts_are_drawn_once(
    text: Seq<char>,
    at: Edges,
    font: Font,
    ink: Ink,
    clip: bool,
)
    ensures
        text.len() > 0 ==> text_ops(text, at, font, ink, clip) == seq![
            OpModel::Text { text, at, font, ink, clip },
        ],
        text.len() == 0 ==> text_ops(text, at, font, ink, clip).len() == 0,
{
}

/// The region of a rectangle begins at its corner and is as wide and high.
pub proof fn law_regions_are_as_large_as_their_rectangle(r: ViewRect)
    ensures
        rect_edges(r).left == r.x && rect_edges(r).top == r.y,
        rect_edges(r).right - rect_edges(r).left == r.w,
        rect_edges(r).bottom - rect_edges(r).top == r.h,
{
}

proof fn lemma_render_length(px: int, dpi: u32)
    requires
        1 <= px <= 1000,
        96 <= dpi <= 9_600,
    ensures
        view::at_dpi(px, dpi) == (px * dpi + 48) / 96,
        geometry::scaled(px, dpi as int) == (px * dpi + 48) / 96,
        view::extent(px, dpi) == (px * dpi + 48) / 96,
        px <= view::at_dpi(px, dpi) <= 100_001,
{
    assert(96 * px <= px * dpi <= 9_600_000) by (nonlinear_arith)
        requires
            1 <= px <= 1000,
            96 <= dpi <= 9_600,
    ;
}

/// A row: its ground, brighter under the mouse, then its box, filled and ticked
/// where it is checked and empty where it is not, then its name over its detail.
/// The texts stand 12 right of the box and end 12 before the row does, and meet
/// in its middle.
pub proof fn law_a_row_shows_box_name_and_detail(row: Row, rect: ViewRect, hot: bool, dpi: u32)
    requires
        96 <= dpi <= 9_600,
        rect.h >= 0,
        row.name@.len() > 0,
        row.detail@.len() > 0,
    ensures
        ({
            let ops = row_ops(row, rect, hot, dpi);
            let b = box_edges(rect, dpi);
            let left = rect.x + (14 * dpi + 48) / 96 + (22 * dpi + 48) / 96 + (12 * dpi + 48) / 96;
            let right = rect.x + rect.w - (12 * dpi + 48) / 96;
            let middle = rect.y + rect.h as int / 2;
            &&& ops.len() == if row.checked {
                5nat
            } else {
                4nat
            }
            &&& ops[0] == (OpModel::Fill {
                at: rect_edges(rect),
                radius: ((8 * dpi + 48) / 96) as i32,
                paint: if hot {
                    Paint::RowHot
                } else {
                    Paint::Row
                },
            })
            &&& row.checked ==> ops[1] == (OpModel::Fill {
                at: b,
                radius: ((5 * dpi + 48) / 96) as i32,
                paint: Paint::Accent,
            }) && ops[2] == (OpModel::CheckMark { at: b })
            &&& !row.checked ==> ops[1] == (OpModel::Outline {
                at: b,
                radius: ((5 * dpi + 48) / 96) as i32,
            })
            &&& b.left == rect.x + (14 * dpi + 48) / 96
            &&& b.right - b.left == (22 * dpi + 48) / 96 && b.bottom - b.top == b.right - b.left
            &&& ops[ops.len() - 2] == (OpModel::Text {
                text: row.name@,
                at: geometry::edges(left, rect.y as int, right, middle),
                font: Font::Name,
                ink: Ink::Plain,
                clip: true,
            })
            &&& ops[ops.len() - 1] == (OpModel::Text {
                text: row.detail@,
                at: geometry::edges(left, middle, right, rect.y + rect.h),
                font: Font::Detail,
                ink: Ink::Dim,
                clip: true,
            })
        }),
{
    lemma_render_length(14, dpi);
    lemma_render_length(22, dpi);
    lemma_render_length(12, dpi);
    lemma_render_length(8, dpi);
    lemma_render_length(5, dpi);
    let ops = row_ops(row, rect, hot, dpi);
    assert(geometry::scaled(8, dpi as int) == ((8 * dpi + 48) / 96) as i32);
    assert(geometry::scaled(5, dpi as int) == ((5 * dpi + 48) / 96) as i32);
}

/// Rows are drawn one by one, each in its own rectangle, and only the one under
/// the mouse is bright.
pub proof fn law_rows_are_drawn_in_their_places(
    rows: Seq<Row>,
    rects: Seq<ViewRect>,
    startup: bool,
    hovered: Option<Hit>,
    dpi: u32,
    n: int,
)
    requires
        0 <= n < rows.len(),
        n < rects.len(),
        n <= usize::MAX,
    ensures
        rows_ops(rows, rects, startup, hovered, dpi, 0).len() == 0,
        rows_ops(rows, rects, startup, hovered, dpi, n + 1) == rows_ops(
            rows,
            rects,
            startup,
            hovered,
            dpi,
            n,
        ) + row_ops(
            rows[n],
            rects[n],
            if startup {
                hovered == Some(Hit::Startup(n as usize))
            } else {
                hovered == Some(Hit::Component(n as usize))
            },
            dpi,
        ),
{
}

/// A button is dim while an action runs, in the accent colour where it restyles,
/// and reads as a warning where it undoes; under the mouse it is brighter.
pub proof fn law_buttons_show_what_they_do(
    rect: ViewRect,
    label: Seq<char>,
    primary: bool,
    hot: bool,
    busy: bool,
    dpi: u32,
)
    requires
        label.len() > 0,
        96 <= dpi <= 9_600,
    ensures
        ({
            let paint = if busy {
                Paint::Busy
            } else if primary && hot {
                Paint::AccentHot
            } else if primary {
                Paint::Accent
            } else if hot {
                Paint::SecondaryHot
            } else {
                Paint::Secondary
            };
            let ink = if primary || busy {
                Ink::Plain
            } else {
                Ink::Danger
            };
            let at = rect_edges(rect);
            let radius = ((8 * dpi + 48) / 96) as i32;
            button_ops(rect, label, primary, hot, busy, dpi) == seq![
                OpModel::Fill { at, radius, paint },
                OpModel::Text { text: label, at, font: Font::Button, ink, clip: false },
            ]
        }),
{
    lemma_render_length(8, dpi);
    assert(geometry::scaled(8, dpi as int) == ((8 * dpi + 48) / 96) as i32);
    let paint = button_paint(primary, hot, busy);
    let ink = if !primary && !busy {
        Ink::Danger
    } else {
        Ink::Plain
    };
    let at = rect_edges(rect);
    assert(button_ops(rect, label, primary, hot, busy, dpi) =~= seq![
        OpModel::Fill { at, radius: geometry::scaled(8, dpi as int), paint },
        OpModel::Text { text: label, at, font: Font::Button, ink, clip: false },
    ]);
}

/// The footer: its ground, the status, and the two buttons, each bright where the
/// mouse is on it.
pub proof fn law_the_footer_shows_status_and_buttons(f: Frame)
    ensures
        footer_ops(f) == seq![
            OpModel::Fill { at: rect_edges(f.layout.footer), radius: 0, paint: Paint::Footer },
        ] + text_ops(f.status@, rect_edges(f.layout.status), Font::Detail, Ink::Dim, true)
            + button_ops(
            f.layout.restore_btn,
            "Undo / Restore"@,
            false,
            f.hovered == Some(Hit::Restore),
            f.busy,
            f.dpi,
        ) + button_ops(
            f.layout.restyle_btn,
            "Restyle Now"@,
            true,
            f.hovered == Some(Hit::RestyleNow),
            f.busy,
            f.dpi,
        ),
{
}

/// The content begins with the title and the line below it, and ends with the
/// startup rows, or with a line that says there are none.
pub proof fn law_the_content_begins_with_the_title(f: Frame)
    requires
        f.title@.len() > 0,
        f.subtitle@.len() > 0,
    ensures
        content_ops(f)[0] == (OpModel::Text {
            text: f.title@,
            at: rect_edges(f.layout.title),
            font: Font::Title,
            ink: Ink::Plain,
            clip: false,
        }),
        content_ops(f)[1] == (OpModel::Text {
            text: f.subtitle@,
            at: rect_edges(f.layout.subtitle),
            font: Font::Subtitle,
            ink: Ink::Dim,
            clip: true,
        }),
        content_ops(f)[2] == (OpModel::Text {
            text: "COMPONENTS"@,
            at: rect_edges(f.layout.components_header),
            font: Font::Section,
            ink: Ink::Dim,
            clip: false,
        }),
        f.startup@.len() == 0 ==> content_ops(f).last() == (OpModel::Text {
            text: "No logon startup programs found."@,
            at: geometry::edges(
                f.layout.startup_header.x as int,
                f.layout.startup_header.y + f.layout.startup_header.h,
                f.layout.startup_header.x + f.layout.startup_header.w,
                f.layout.startup_header.y + 2 * f.layout.startup_header.h,
            ),
            font: Font::Detail,
            ink: Ink::Dim,
            clip: true,
        }),
        TITLE@ == "WinRestyle"@,
{
    reveal_strlit("COMPONENTS");
    reveal_strlit("STARTUP PROGRAMS");
    reveal_strlit("No logon startup programs found.");
}

/// The pads and corners of rows, at 96 DPI.
pub proof fn law_rows_have_their_pads_and_corners()
    ensures
        TEXT_PAD == 12,
        ROW_RADIUS == 8,
        BOX_RADIUS == 5,
{
}

/// A frame shows the model: a row per component with its name, its summary and
/// whether it is selected, and a row per startup entry with its name, where it
/// comes from and what it runs, and its checkbox.
pub proof fn law_a_frame_shows_the_model(f: Frame, m: Manager, w: i32, h: i32, i: int)
    requires
        f.is_frame_of(m, w, h),
        m.registry.components@ == crate::components::all_components(),
    ensures
        f.title@ == "WinRestyle"@,
        f.subtitle@ == m.subtitle@,
        f.status@ == m.status@,
        f.hovered == m.hovered,
        f.busy == m.busy,
        f.scroll == m.scroll,
        f.dpi == m.dpi,
        f.layout.is_layout_of(w as int, h as int, m.dpi, 3, m.entries@.len() as int),
        f.components@.len() == 3,
        f.components@[0].name@ == "Taskbar"@,
        f.components@[1].name@ == "Wallpaper"@,
        f.components@[2].name@ == "Startup programs"@,
        f.components@[0].checked == text::texts(m.selected@).contains("taskbar"@),
        f.components@[1].checked == text::texts(m.selected@).contains("wallpaper"@),
        f.components@[2].checked == text::texts(m.selected@).contains("autostart"@),
        0 <= i < 3 ==> f.components@[i].detail@ == m.registry.components@[i].summary_text(),
        f.startup@.len() == m.entries@.len(),
        0 <= i < m.entries@.len() ==> f.startup@[i].name@ == m.entries@[i].name@
            && f.startup@[i].detail@ == m.entries@[i].source.label_text() + " · "@
            + m.entries@[i].detail@ && f.startup@[i].checked == m.entry_checked@[i],
{
    let all = m.registry.components@;
    assert(f.components@[0].name@ == all[0].name_text());
    assert(f.components@[1].name@ == all[1].name_text());
    assert(f.components@[2].name@ == all[2].name_text());
    if 0 <= i < 3 {
        assert(f.components@[i].detail@ == all[i].summary_text());
    }
    if 0 <= i < m.entries@.len() {
        assert(f.startup@[i].name@ == m.entries@[i].name@);
    }
}

} // verus!
