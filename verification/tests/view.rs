//! The manager window's layout and hit-testing.
use winrestyle::installer::view::{layout, scale, Hit, Layout, ROW_H};

fn wide() -> Layout {
    layout(560, 640, 96, 3, 4)
}

#[test]
fn view_identity_at_96_dpi() {
    assert_eq!(scale(52, 96), 52);
    assert_eq!(scale(18, 96), 18);
}

#[test]
fn view_scales_at_150_percent() {
    assert_eq!(scale(52, 144), 78);
    let l = layout(840, 960, 144, 3, 0);
    // Rows are the scaled row height.
    assert!(l.components.iter().all(|r| r.h == scale(ROW_H, 144)));
}

#[test]
fn one_row_per_component_and_startup_entry() {
    let l = layout(560, 640, 96, 3, 5);
    assert_eq!(l.components.len(), 3);
    assert_eq!(l.startup.len(), 5);
}

#[test]
fn rows_stack_without_overlap_and_in_order() {
    let l = wide();
    for pair in l.components.windows(2) {
        assert!(pair[1].y >= pair[0].y + pair[0].h, "rows overlap");
    }
    // Components sit above the startup header, which sits above its rows.
    assert!(l.components.last().unwrap().y < l.startup_header.y);
    assert!(l.startup_header.y < l.startup[0].y);
}

#[test]
fn content_height_grows_with_entries() {
    let few = layout(560, 640, 96, 1, 1).content_height;
    let many = layout(560, 640, 96, 3, 20).content_height;
    assert!(many > few);
}

#[test]
fn footer_is_pinned_to_the_bottom_with_two_buttons() {
    let l = wide();
    assert_eq!(l.footer.y + l.footer.h, 640);
    assert_eq!(l.footer.w, 560);
    // Restyle is right of restore, both inside the footer band.
    assert!(l.restore_btn.x + l.restore_btn.w <= l.restyle_btn.x);
    for b in [l.restore_btn, l.restyle_btn] {
        assert!(b.y >= l.footer.y && b.y + b.h <= l.footer.y + l.footer.h);
    }
    // Status text does not run under the restore button.
    assert!(l.status.x + l.status.w <= l.restore_btn.x);
}

#[test]
fn scroll_clamps_to_content() {
    // Tall content, short window → scrollable.
    let l = layout(560, 300, 96, 3, 40);
    assert!(l.max_scroll() > 0);
    assert_eq!(l.clamp_scroll(-100), 0);
    assert_eq!(l.clamp_scroll(l.max_scroll() + 999), l.max_scroll());
    // Everything fits → no scroll.
    let l = layout(560, 2000, 96, 1, 1);
    assert_eq!(l.max_scroll(), 0);
}

#[test]
fn hit_test_resolves_buttons_and_rows() {
    let l = wide();
    // Buttons (screen space, in the footer).
    assert_eq!(
        l.hit_test(l.restyle_btn.x + 1, l.restyle_btn.y + 1, 0),
        Some(Hit::RestyleNow)
    );
    assert_eq!(
        l.hit_test(l.restore_btn.x + 1, l.restore_btn.y + 1, 0),
        Some(Hit::Restore)
    );
    // First component row, no scroll (content y == screen y).
    let r = l.components[0];
    assert_eq!(l.hit_test(r.x + 5, r.y + 5, 0), Some(Hit::Component(0)));
    // A startup row.
    let s = l.startup[2];
    assert_eq!(l.hit_test(s.x + 5, s.y + 5, 0), Some(Hit::Startup(2)));
    // Empty space between rows hits nothing.
    assert_eq!(l.hit_test(r.x + 5, r.y + r.h + 1, 0), None);
}

#[test]
fn scrolled_content_hit_tests_in_content_space() {
    // Short window so the list scrolls; scroll a row up under the top edge.
    let l = layout(560, 260, 96, 3, 20);
    let target = l.startup[10];
    let scroll = l.clamp_scroll(target.y - 40); // bring it near the top
                                                // Its screen y is content y minus scroll.
    let screen_y = target.y - scroll + 5;
    assert!(screen_y < l.footer.y, "row should be in the viewport");
    assert_eq!(
        l.hit_test(target.x + 5, screen_y, scroll),
        Some(Hit::Startup(10))
    );
}

#[test]
fn clicks_under_the_footer_never_hit_a_row() {
    // Even if a content row would map under the footer, footer clicks only
    // ever resolve to buttons (or nothing), never a toggle.
    let l = layout(560, 260, 96, 3, 20);
    let in_footer_empty = l.footer.y + 2;
    // A point in the footer away from the buttons.
    assert_eq!(l.hit_test(l.status.x + 1, in_footer_empty, 999), None);
}

#[test]
fn checkbox_sits_inside_its_row() {
    let l = wide();
    let row = l.components[1];
    let cb = l.checkbox_rect(&row, 96);
    assert!(cb.x >= row.x && cb.x + cb.w <= row.x + row.w);
    assert!(cb.y >= row.y && cb.y + cb.h <= row.y + row.h);
}

#[test]
fn degenerate_sizes_survive() {
    for (w, h) in [(1, 1), (10, 10), (200, 60), (560, 1)] {
        let l = layout(w, h, 96, 3, 8);
        for r in [l.title, l.footer, l.restyle_btn, l.restore_btn, l.status] {
            assert!(r.w >= 1 && r.h >= 1, "w={w} h={h} rect={r:?}");
        }
        assert!(l.max_scroll() >= 0);
    }
}
