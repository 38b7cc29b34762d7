//! The wallpaper window: a bottom-most window covering the virtual screen,
//! filled with the configured colour and, where there is one, an image.
//!
//! The wallpaper is cosmetic: whatever goes wrong with an image, the colour
//! shows instead.
use vstd::prelude::*;

use crate::config::{Color, Config};
use crate::geometry::{self, max_i32};
use crate::number;
use crate::paths;

verus! {

/// Window class of the wallpaper.
pub const WALLPAPER_WINDOW_CLASS: &'static str = "WinRestyleWallpaper";

/// Window messages the wallpaper answers.
pub const WM_DESTROY: u32 = 0x0002;
pub const WM_PAINT: u32 = 0x000f;
pub const WM_ERASEBKGND: u32 = 0x0014;
pub const WM_WINDOWPOSCHANGING: u32 = 0x0046;
pub const WM_DISPLAYCHANGE: u32 = 0x007e;

/// Posted to the wallpaper window to re-read the configuration and repaint
/// (`WM_APP + 1`).
pub const WM_CONFIG_CHANGED: u32 = 0x8001;

/// What a message asks of the wallpaper window.
#[derive(Debug, Clone, Copy, PartialEq, Eq, Structural)]
pub enum WallpaperEvent {
    Paint,
    /// Answered with 1: a paint covers every pixel, so an erase would only
    /// flicker.
    Erase,
    ConfigChanged,
    /// Fit the window to the virtual screen again.
    DisplayChanged,
    /// Pin the window to the bottom of the stack, then let the default
    /// procedure go on.
    KeepAtBottom,
    Quit,
    /// Left to the default procedure.
    Other,
}

/// What a message asks for.
pub open spec fn wallpaper_event(msg: u32) -> WallpaperEvent {
    if msg == WM_PAINT {
        WallpaperEvent::Paint
    } else if msg == WM_ERASEBKGND {
        WallpaperEvent::Erase
    } else if msg == WM_CONFIG_CHANGED {
        WallpaperEvent::ConfigChanged
    } else if msg == WM_DISPLAYCHANGE {
        WallpaperEvent::DisplayChanged
    } else if msg == WM_WINDOWPOSCHANGING {
        WallpaperEvent::KeepAtBottom
    } else if msg == WM_DESTROY {
        WallpaperEvent::Quit
    } else {
        WallpaperEvent::Other
    }
}

/// Sort a window message.
pub fn wndproc(msg: u32) -> (r: WallpaperEvent)
    ensures
        r == wallpaper_event(msg),
{
    match msg {
        WM_PAINT => WallpaperEvent::Paint,
        WM_ERASEBKGND => WallpaperEvent::Erase,
        WM_CONFIG_CHANGED => WallpaperEvent::ConfigChanged,
        WM_DISPLAYCHANGE => WallpaperEvent::DisplayChanged,
        WM_WINDOWPOSCHANGING => WallpaperEvent::KeepAtBottom,
        WM_DESTROY => WallpaperEvent::Quit,
        _ => WallpaperEvent::Other,
    }
}

/// Where the window goes: the virtual screen, at least one pixel a side.
pub fn virtual_screen(x: i32, y: i32, w: i32, h: i32) -> (r: (i32, i32, i32, i32))
    ensures
        r.0 == x,
        r.1 == y,
        r.2 == geometry::max_of(w as int, 1),
        r.3 == geometry::max_of(h as int, 1),
{
    (x, y, max_i32(w, 1), max_i32(h, 1))
}

/// The number GDI takes a colour as: blue above green above red.
pub open spec fn colorref_value(c: Color) -> int {
    c.b * 0x1_0000 + c.g * 0x100 + c.r
}

/// A colour as GDI takes it.
pub fn colorref(c: Color) -> (r: u32)
    ensures
        r == colorref_value(c),
{
    c.b as u32 * 0x1_0000 + c.g as u32 * 0x100 + c.r as u32
}

/// The largest side of an image that is decoded.
pub const MAX_SIDE: u32 = 16384;

/// The memory an image of 32-bit pixels takes.
#[derive(Debug, Clone, Copy, PartialEq, Eq, Structural)]
pub struct PixelBuffer {
    pub width: i32,
    pub height: i32,
    /// Bytes of one row.
    pub stride: u32,
    /// Bytes of all rows.
    pub bytes: usize,
}

/// Whether an image's size is one that is decoded.
pub open spec fn is_reasonable(w: u32, h: u32) -> bool {
    1 <= w <= MAX_SIDE && 1 <= h <= MAX_SIDE
}

/// What a size that is not decoded is answered.
pub open spec fn size_error(w: u32, h: u32) -> Seq<char> {
    "unreasonable image size "@ + number::decimal_text(w as nat) + "x"@ + number::decimal_text(
        h as nat,
    )
}

/// The buffer for a decoded image of `w` by `h` pixels, or an error naming the
/// size where a side is 0 or over [`MAX_SIDE`].
pub fn decode_size(w: u32, h: u32) -> (r: Result<PixelBuffer, String>)
    ensures
        r is Ok <==> is_reasonable(w, h),
        r matches Ok(b) ==> {
            &&& b.width == w
            &&& b.height == h
            &&& b.stride == w * 4
            &&& b.bytes == w * 4 * h
        },
        r matches Err(e) ==> e@ == size_error(w, h),
{
    if 1 <= w && w <= MAX_SIDE && 1 <= h && h <= MAX_SIDE {
        assert(w * 4 * h <= 0x4000_0000) by (nonlinear_arith)
            requires
                1 <= w <= 16384,
                1 <= h <= 16384,
        ;
        let stride: u32 = w * 4;
        Ok(
            PixelBuffer {
                width: w as i32,
                height: h as i32,
                stride,
                bytes: (stride * h) as usize,
            },
        )
    } else {
        let mut e = "unreasonable image size ".to_owned();
        number::push_decimal(&mut e, w as u64);
        e.append("x");
        number::push_decimal(&mut e, h as u64);
        Err(e)
    }
}

/// What a changed configuration asks of the window.
#[derive(Debug, Clone, Copy, PartialEq, Eq, Structural)]
pub enum Refresh {
    /// The configuration is the one already shown.
    Nothing,
    Repaint,
    /// Decode the image again, then repaint.
    ReloadImage,
}

/// The path of the image a configuration shows.
pub open spec fn shown_image(config: crate::config::ConfigModel) -> Option<Seq<char>> {
    if config.wallpaper.enabled {
        config.wallpaper.image
    } else {
        None
    }
}

/// One stretched copy of the image over the window.
#[derive(Debug, Clone, Copy, PartialEq, Eq, Structural)]
pub struct Stretch {
    pub dest_w: i32,
    pub dest_h: i32,
    pub src_w: i32,
    pub src_h: i32,
}

/// What one paint does: fill with the colour, then stretch the image over it
/// where there is one.
#[derive(Debug, Clone, Copy, PartialEq, Eq, Structural)]
pub struct PaintPlan {
    pub fill: u32,
    pub stretch: Option<Stretch>,
    /// Whether this paint is to be logged.
    pub log: bool,
}

/// What the wallpaper shows.
pub struct WallpaperState {
    pub config: Config,
    /// Log the next paint (at startup and after a change).
    pub log_next_paint: bool,
}

impl WallpaperState {
    /// The state at startup.
    pub fn new(config: Config) -> (r: Self)
        ensures
            r.config == config,
            r.log_next_paint,
    {
        WallpaperState { config, log_next_paint: true }
    }

    /// Take over a configuration, and say what that asks for: nothing where it
    /// is the same, and decoding the image again on any change to what actually
    /// shows, the wallpaper's switch among it.
    pub fn refresh_config(&mut self, new: Config) -> (r: Refresh)
        ensures
            r == if crate::config::same_settings(new@, old(self).config@) {
                Refresh::Nothing
            } else if !paths::same_optional_path(
                shown_image(new@),
                shown_image(old(self).config@),
            ) {
                Refresh::ReloadImage
            } else {
                Refresh::Repaint
            },
            final(self).config@ == if r == Refresh::Nothing {
                old(self).config@
            } else {
                new@
            },
            final(self).log_next_paint == (old(self).log_next_paint || r != Refresh::Nothing),
    {
        if new == self.config {
            return Refresh::Nothing;
        }
        let same_image = paths::same_optional(
            new.wallpaper.effective_image(),
            self.config.wallpaper.effective_image(),
        );
        self.config = new;
        self.log_next_paint = true;
        if same_image {
            Refresh::Repaint
        } else {
            Refresh::ReloadImage
        }
    }

    /// Plan a paint of a `w` by `h` window with an image of the given size, if
    /// one is decoded. The colour comes first: it is the backdrop while an
    /// image is absent or broken.
    pub fn paint(&mut self, image: Option<(i32, i32)>, w: i32, h: i32) -> (r: PaintPlan)
        ensures
            r.fill == colorref_value(
                if old(self).config.wallpaper.enabled {
                    old(self).config.wallpaper.color
                } else {
                    crate::config::default_wallpaper_color()
                },
            ),
            r.stretch == match image {
                Some((src_w, src_h)) => Some(
                    (Stretch { dest_w: w, dest_h: h, src_w, src_h }),
                ),
                None => None,
            },
            r.log == old(self).log_next_paint,
            final(self).config == old(self).config,
            !final(self).log_next_paint,
    {
        let log: bool = self.log_next_paint;
        self.log_next_paint = false;
        PaintPlan {
            fill: colorref(self.config.wallpaper.effective_color()),
            stretch: match image {
                Some((src_w, src_h)) => Some(Stretch { dest_w: w, dest_h: h, src_w, src_h }),
                None => None,
            },
            log,
        }
    }
}

/// Different colours are different numbers to GDI.
pub proof fn law_colorrefs_tell_colors_apart(a: Color, b: Color)
    ensures
        0 <= colorref_value(a) < 0x100_0000,
        colorref_value(a) == colorref_value(b) ==> a == b,
{
}

/// Flipping the wallpaper's switch always reloads the image where one is
/// configured, and never where none is.
pub proof fn law_the_switch_changes_what_shows(
    a: crate::config::ConfigModel,
    b: crate::config::ConfigModel,
)
    requires
        a.wallpaper.enabled != b.wallpaper.enabled,
        paths::same_optional_path(a.wallpaper.image, b.wallpaper.image),
    ensures
        !paths::same_optional_path(shown_image(a), shown_image(b)) <==> a.wallpaper.image is Some,
{
}

/// The messages by their numbers.
pub proof fn law_wallpaper_messages_are_told_by_number(msg: u32)
    ensures
        wallpaper_event(msg) == if msg == 0x0f {
            WallpaperEvent::Paint
        } else if msg == 0x14 {
            WallpaperEvent::Erase
        } else if msg == 0x8001 {
            WallpaperEvent::ConfigChanged
        } else if msg == 0x7e {
            WallpaperEvent::DisplayChanged
        } else if msg == 0x46 {
            WallpaperEvent::KeepAtBottom
        } else if msg == 2 {
            WallpaperEvent::Quit
        } else {
            WallpaperEvent::Other
        },
{
}

/// A colour's channels can be read back from its number: red from the lowest
/// byte, green from the next, blue from the third.
pub proof fn law_colorrefs_hold_red_lowest(c: Color)
    ensures
        colorref_value(c) % 256 == c.r,
        colorref_value(c) / 256 % 256 == c.g,
        colorref_value(c) / 256 / 256 == c.b,
{
}

/// Images are decoded up to 16384 pixels a side, and none without an extent; what
/// is refused is named by its size.
pub proof fn law_images_are_bounded(w: u32, h: u32)
    ensures
        is_reasonable(w, h) <==> 0 < w <= 16384 && 0 < h <= 16384,
        size_error(w, h) == "unreasonable image size "@ + number::decimal_text(w as nat) + seq![
            'x',
        ] + number::decimal_text(h as nat),
{
    reveal_strlit("x");
    assert("x"@ =~= seq!['x']);
}

/// An image shows exactly where the wallpaper is on and has one.
pub proof fn law_an_image_shows_while_the_wallpaper_is_on(config: crate::config::ConfigModel)
    ensures
        config.wallpaper.enabled ==> shown_image(config) == config.wallpaper.image,
        !config.wallpaper.enabled ==> shown_image(config) is None,
{
}

/// The messages the wallpaper answers by the numbers the system gives them, and
/// its bounds.
pub proof fn law_the_wallpaper_knows_the_systems_numbers()
    ensures
        WALLPAPER_WINDOW_CLASS@ == "WinRestyleWallpaper"@,
        WM_DESTROY == 0x0002,
        WM_PAINT == 0x000f,
        WM_ERASEBKGND == 0x0014,
        WM_WINDOWPOSCHANGING == 0x0046,
        WM_DISPLAYCHANGE == 0x007e,
        WM_CONFIG_CHANGED == 0x8001,
        MAX_SIDE == 16384,
{
}

} // verus!
