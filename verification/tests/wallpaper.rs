//! Window-message numbers and the wallpaper.
use winrestyle::config::{Color, Config};
use winrestyle::message::{client_size, mouse_x, mouse_y, wheel_delta, word_of};
use winrestyle::wallpaper::{
    colorref, decode_size, virtual_screen, wndproc, PaintPlan, PixelBuffer, Refresh, Stretch,
    WallpaperEvent, WallpaperState, MAX_SIDE, WM_CONFIG_CHANGED, WM_DESTROY, WM_DISPLAYCHANGE,
    WM_ERASEBKGND, WM_PAINT, WM_WINDOWPOSCHANGING,
};

#[test]
fn coordinates_are_signed_words() {
    let packed = |x: i16, y: i16| ((y as u16 as isize) << 16) | x as u16 as isize;
    for (x, y) in [(0, 0), (-1, 1), (1919, -1080), (i16::MIN, i16::MAX)] {
        assert_eq!(mouse_x(packed(x, y)), x as i32);
        assert_eq!(mouse_y(packed(x, y)), y as i32);
    }
    assert_eq!(mouse_x(-1), -1);
    assert_eq!(wheel_delta(0x0078_0000), 120);
    assert_eq!(wheel_delta(0xff88_0004), -120);
    assert_eq!(word_of(0x1_0002), 2);
    assert_eq!(client_size(0x0300_0400), (1024, 768));
    assert_eq!(client_size(0), (1, 1));
}

#[test]
fn messages_are_sorted() {
    assert_eq!(wndproc(WM_PAINT), WallpaperEvent::Paint);
    assert_eq!(wndproc(WM_ERASEBKGND), WallpaperEvent::Erase);
    assert_eq!(wndproc(WM_CONFIG_CHANGED), WallpaperEvent::ConfigChanged);
    assert_eq!(wndproc(WM_DISPLAYCHANGE), WallpaperEvent::DisplayChanged);
    assert_eq!(wndproc(WM_WINDOWPOSCHANGING), WallpaperEvent::KeepAtBottom);
    assert_eq!(wndproc(WM_DESTROY), WallpaperEvent::Quit);
    assert_eq!(wndproc(0x0400), WallpaperEvent::Other);
}

#[test]
fn the_window_covers_the_virtual_screen() {
    assert_eq!(virtual_screen(-1920, 0, 3840, 1080), (-1920, 0, 3840, 1080));
    assert_eq!(virtual_screen(0, 0, 0, -5), (0, 0, 1, 1));
}

#[test]
fn colorrefs_are_blue_green_red() {
    assert_eq!(
        colorref(Color {
            r: 0x12,
            g: 0x34,
            b: 0x56
        }),
        0x0056_3412
    );
}

#[test]
fn image_sizes_are_bounded() {
    assert_eq!(
        decode_size(3, 2),
        Ok(PixelBuffer {
            width: 3,
            height: 2,
            stride: 12,
            bytes: 24
        })
    );
    assert!(decode_size(MAX_SIDE, MAX_SIDE).is_ok());
    assert_eq!(
        decode_size(0, 7),
        Err("unreasonable image size 0x7".to_string())
    );
    assert_eq!(
        decode_size(16385, 10),
        Err("unreasonable image size 16385x10".to_string())
    );
}

#[test]
fn a_change_reloads_the_image_where_what_shows_changed() {
    let mut s = WallpaperState::new(Config::default());
    assert_eq!(s.refresh_config(Config::default()), Refresh::Nothing);
    let mut c = Config::default();
    c.wallpaper.color = Color { r: 1, g: 2, b: 3 };
    assert_eq!(s.refresh_config(c.clone()), Refresh::Repaint);
    c.wallpaper.image = Some("a.png".to_string());
    assert_eq!(s.refresh_config(c.clone()), Refresh::ReloadImage);
    // Switching the wallpaper off takes the image off too.
    c.wallpaper.enabled = false;
    assert_eq!(s.refresh_config(c.clone()), Refresh::ReloadImage);
    // While it is off, another image changes nothing that shows.
    c.wallpaper.image = Some("b.png".to_string());
    assert_eq!(s.refresh_config(c.clone()), Refresh::Repaint);
    c.wallpaper.enabled = true;
    assert_eq!(s.refresh_config(c), Refresh::ReloadImage);
}

#[test]
fn an_image_path_written_otherwise_is_no_change() {
    let mut c = Config::default();
    c.wallpaper.image = Some(r"C:\pics\a.png".to_string());
    let mut s = WallpaperState::new(c.clone());
    c.wallpaper.image = Some("c:/pics//a.png".to_string());
    assert_eq!(s.refresh_config(c.clone()), Refresh::Nothing);
    assert_eq!(
        s.config.wallpaper.image.as_deref(),
        Some(r"C:\pics\a.png")
    );
    // Another setting changes, the picture does not.
    c.wallpaper.color = Color { r: 1, g: 2, b: 3 };
    assert_eq!(s.refresh_config(c.clone()), Refresh::Repaint);
    c.wallpaper.image = Some(r"C:\pics\b.png".to_string());
    assert_eq!(s.refresh_config(c), Refresh::ReloadImage);
}

#[test]
fn a_paint_fills_then_stretches() {
    let mut c = Config::default();
    c.wallpaper.color = Color { r: 1, g: 0, b: 0 };
    let mut s = WallpaperState::new(c);
    assert_eq!(
        s.paint(Some((4, 3)), 1920, 1080),
        PaintPlan {
            fill: 1,
            stretch: Some(Stretch {
                dest_w: 1920,
                dest_h: 1080,
                src_w: 4,
                src_h: 3
            }),
            log: true,
        }
    );
    let again = s.paint(None, 1920, 1080);
    assert_eq!((again.stretch, again.log), (None, false));
}
