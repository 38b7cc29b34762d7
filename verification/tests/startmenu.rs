//! Start-menu geometry, selection and filter.
use winrestyle::taskbar::layout::BarRect;
use winrestyle::taskbar::startmenu::{first_selectable, menu_layout, menu_rect, MenuState};

const MON: (i32, i32, i32, i32) = (0, 0, 1920, 1080);
const BAR: BarRect = BarRect {
    x: 8,
    y: 1024,
    w: 1904,
    h: 48,
};

#[test]
fn menu_sits_above_the_bar_left_aligned() {
    let r = menu_rect(MON, BAR, 96);
    assert_eq!(r.x, BAR.x);
    assert_eq!(r.y + r.h, BAR.y - 8);
    assert_eq!((r.w, r.h), (360, 520));
}

#[test]
fn menu_scales_with_dpi() {
    let r = menu_rect(
        (0, 0, 2880, 1620),
        BarRect {
            x: 12,
            y: 1536,
            w: 2856,
            h: 72,
        },
        144,
    );
    assert_eq!((r.w, r.h), (540, 780));
    assert_eq!(r.y + r.h, 1536 - 12);
}

#[test]
fn menu_clamps_to_short_and_narrow_monitors() {
    // Not enough room above the bar: height shrinks.
    let r = menu_rect(
        (0, 0, 1920, 300),
        BarRect {
            x: 8,
            y: 244,
            w: 1904,
            h: 48,
        },
        96,
    );
    assert_eq!(r.y, 0);
    assert_eq!(r.h, 244 - 8);
    // A monitor narrower than the menu: width shrinks, x stays on-screen.
    let r = menu_rect(
        (0, 0, 200, 1080),
        BarRect {
            x: 8,
            y: 1024,
            w: 184,
            h: 48,
        },
        96,
    );
    assert_eq!((r.x, r.w), (0, 200));
    // A bar near the monitor's right edge on a wide monitor: x pulls left.
    let r = menu_rect(
        MON,
        BarRect {
            x: 1800,
            y: 1024,
            w: 100,
            h: 48,
        },
        96,
    );
    assert_eq!(r.x + r.w, 1920);
    // Negative-offset monitors keep their coordinates.
    let r = menu_rect(
        (-1920, 0, 1920, 1080),
        BarRect {
            x: -1912,
            y: 1024,
            w: 1904,
            h: 48,
        },
        96,
    );
    assert_eq!(r.x, -1912);
}

#[test]
fn layout_places_search_then_rows() {
    let l = menu_layout(360, 520, 96, 5, 0);
    assert_eq!(
        l.search,
        BarRect {
            x: 10,
            y: 10,
            w: 340,
            h: 34
        }
    );
    assert_eq!(l.rows.len(), 5);
    assert_eq!(l.rows[0].1.y, 10 + 34 + 10);
    assert_eq!(l.rows[1].1.y, l.rows[0].1.y + 32 + 2);
    // No overflow: full-width rows, no scrollbar.
    assert!(l.rows.iter().all(|(_, r)| r.w == 340));
    assert_eq!(l.scrollbar, None);
    // fit is the page size even when fewer rows exist.
    assert!(l.fit > 5);
}

#[test]
fn layout_windows_the_list_by_scroll() {
    let l = menu_layout(360, 520, 96, 100, 7);
    let indices: Vec<usize> = l.rows.iter().map(|(i, _)| *i).collect();
    assert_eq!(indices[0], 7);
    assert_eq!(indices.len(), l.fit);
    assert!(indices.windows(2).all(|w| w[1] == w[0] + 1));
    // Scroll past the end clamps.
    let l = menu_layout(360, 520, 96, 100, 10_000);
    assert_eq!(l.rows.last().unwrap().0, 99);
}

#[test]
fn scrollbar_appears_only_on_overflow_and_tracks_scroll() {
    assert_eq!(menu_layout(360, 520, 96, 3, 0).scrollbar, None);
    let top = menu_layout(360, 520, 96, 100, 0);
    let thumb_top = top.scrollbar.expect("overflow needs a thumb");
    let bottom = menu_layout(360, 520, 96, 100, 100);
    let thumb_bottom = bottom.scrollbar.unwrap();
    assert!(thumb_bottom.y > thumb_top.y);
    // Thumb ends exactly at the track bottom when fully scrolled.
    assert_eq!(thumb_bottom.y + thumb_bottom.h, 520 - 10);
    // Rows shrink to make room for the thumb.
    assert!(top.rows[0].1.w < top.search.w);
    assert_eq!(thumb_top.x + thumb_top.w, top.search.x + top.search.w);
}

#[test]
fn degenerate_sizes_never_panic_or_produce_zero_rects() {
    for (w, h) in [(1, 1), (20, 40), (360, 30), (360, 60)] {
        let l = menu_layout(w, h, 96, 50, 3);
        assert!(l.search.w >= 1 && l.search.h >= 1);
        for (_, r) in &l.rows {
            assert!(r.w >= 1 && r.h >= 1, "w={w} h={h}");
        }
    }
    let l = menu_layout(360, 520, 96, 0, 0);
    assert!(l.rows.is_empty());
    assert_eq!(l.scrollbar, None);
}

#[test]
fn hit_row_resolves_visible_rows_only() {
    let l = menu_layout(360, 520, 96, 100, 10);
    let (idx, r) = l.rows[2];
    assert_eq!(l.hit_row(r.x + 1, r.y + 1), Some(idx));
    assert_eq!(idx, 12);
    // The search box and gaps belong to no row.
    assert_eq!(l.hit_row(l.search.x + 1, l.search.y + 1), None);
    assert_eq!(l.hit_row(r.x + 1, r.y - 1), None);
}

#[test]
fn typing_edits_the_filter_and_resets_the_viewport() {
    let mut s = MenuState {
        filter: String::new(),
        selected: 9,
        scroll: 5,
    };
    assert!(s.on_char('a'));
    assert_eq!((s.filter.as_str(), s.selected, s.scroll), ("a", 0, 0));
    assert!(s.on_char('B'));
    assert_eq!(s.filter, "aB");
    // Backspace shortens; on an empty filter it is a no-op.
    assert!(s.on_char('\u{8}'));
    assert_eq!(s.filter, "a");
    assert!(s.on_char('\u{8}'));
    assert!(!s.on_char('\u{8}'));
    // Control characters (Enter, Esc arrive as WM_CHAR too) are ignored.
    assert!(!s.on_char('\r'));
    assert!(!s.on_char('\u{1b}'));
    assert!(s.filter.is_empty());
}

#[test]
fn selection_all_selectable_clamps_and_keeps_itself_visible() {
    // With no headers, stepping behaves like a plain clamped move.
    let sel = [true; 10];
    let mut s = MenuState::default();
    s.move_selection_skipping(-1, &sel, 3);
    assert_eq!((s.selected, s.scroll), (0, 0));
    s.move_selection_skipping(1, &sel, 3);
    s.move_selection_skipping(1, &sel, 3);
    s.move_selection_skipping(1, &sel, 3); // selected 3, past a 3-row view
    assert_eq!((s.selected, s.scroll), (3, 1));
    // An empty list pins everything to zero.
    s.selected = 4;
    s.move_selection_skipping(1, &[], 3);
    assert_eq!((s.selected, s.scroll), (0, 0));
}

#[test]
fn selection_skips_group_headers() {
    // Layout: [Header, A, B, Header, C] — indices 0 and 3 are headers.
    let sel = [false, true, true, false, true];
    let mut s = MenuState {
        selected: 1,
        ..Default::default()
    };
    // Down from A(1) → B(2).
    s.move_selection_skipping(1, &sel, 5);
    assert_eq!(s.selected, 2);
    // Down from B(2) hops over the header at 3 → C(4).
    s.move_selection_skipping(1, &sel, 5);
    assert_eq!(s.selected, 4);
    // Down at the end is a no-op (no selectable past 4).
    s.move_selection_skipping(1, &sel, 5);
    assert_eq!(s.selected, 4);
    // Up from C(4) hops back over header 3 → B(2).
    s.move_selection_skipping(-1, &sel, 5);
    assert_eq!(s.selected, 2);
    // first_selectable skips the leading header.
    assert_eq!(first_selectable(&sel), 1);
    assert_eq!(first_selectable(&[false, false]), 0);
    assert_eq!(first_selectable(&[]), 0);
}

#[test]
fn selection_scroll_reveals_the_group_header_above_it() {
    // A header at 3 with items 4,5,6; a 2-row viewport.
    let sel = [true, true, true, false, true, true, true];
    let mut s = MenuState {
        selected: 3, // pretend just below; step down to 4
        scroll: 5,
        ..Default::default()
    };
    s.move_selection_skipping(1, &sel, 2); // → 4, above current scroll(5)
    assert_eq!(s.selected, 4);
    // Scroll pulls back to show the header (3) sitting above item 4.
    assert_eq!(s.scroll, 3);
}

#[test]
fn wheel_scrolls_without_moving_the_selection() {
    let mut s = MenuState {
        selected: 2,
        ..Default::default()
    };
    s.on_wheel(3, 10, 3);
    assert_eq!((s.selected, s.scroll), (2, 3));
    s.on_wheel(100, 10, 3);
    assert_eq!(s.scroll, 7);
    s.on_wheel(-100, 10, 3);
    assert_eq!(s.scroll, 0);
    // No overflow: wheel is a no-op.
    s.on_wheel(5, 3, 10);
    assert_eq!(s.scroll, 0);
}

#[test]
fn one_visible_row_shows_the_selection_and_not_its_header() {
    let mut s = MenuState {
        filter: String::new(),
        selected: 2,
        scroll: 2,
    };
    s.move_selection_skipping(-1, &[false, true, true], 1);
    assert_eq!((s.selected, s.scroll), (1, 1));
    s.selected = 2;
    s.scroll = 2;
    s.move_selection_skipping(-1, &[false, true, true], 2);
    assert_eq!((s.selected, s.scroll), (1, 0));
    // The widest viewport there is.
    s.move_selection_skipping(1, &[false, true, true], usize::MAX);
    assert_eq!((s.selected, s.scroll), (2, 0));
}

#[test]
fn the_thumb_has_a_height_at_any_dpi() {
    for dpi in [0, 1, 2, 96] {
        let l = menu_layout(360, 600, dpi, 100_000, 0);
        assert!(l.scrollbar.unwrap().h >= 1, "{dpi}");
    }
}
