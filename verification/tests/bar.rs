//! The taskbar windows.
use std::collections::HashMap;
use winrestyle::config::{Backdrop, Config};
use winrestyle::geometry::Edges;
use winrestyle::taskbar::bar::{
    bar_layout, wndproc, Bar, BarClick, BarEvent, BarLayout, BarState, Hit, CLOCK_TIMER,
    WM_DESTROY, WM_DISPLAYCHANGE, WM_DPICHANGED, WM_MOUSELEAVE, WM_MOUSEMOVE, WM_TIMER,
};
use winrestyle::taskbar::clock::{clock_strings, LocalTime};
use winrestyle::taskbar::follow::{
    backdrop_plan, monitor, monitors, place_bar, rebuild_bars_once, BackdropPlan, Monitor,
    Rebuild, RebuildStep,
};
use winrestyle::taskbar::layout::{button_rects, start_rect, BarRect};
use winrestyle::taskbar::render::{
    chip_alpha, draw, next_driver, sync_icon_cache, BarOp, Driver,
};
use winrestyle::taskbar::tasks::{Icon, TaskWindow};
use winrestyle::taskbar::tray::TrayIcon;
use winrestyle::taskbar::tray_host::{Repaint, TrayPixels, WM_LBUTTONDOWN, WM_RBUTTONUP};
use winrestyle::taskbar::winlist::WM_WINDOWS_CHANGED;

fn rect(x: i32, y: i32, w: i32, h: i32) -> BarRect {
    BarRect { x, y, w, h }
}

fn window(hwnd: isize, title: &str) -> TaskWindow {
    TaskWindow {
        hwnd,
        title: title.to_string(),
    }
}

fn icon() -> Icon {
    Icon {
        width: 1,
        height: 1,
        bgra: vec![0, 0, 0, 255],
    }
}

const NOON: LocalTime = LocalTime {
    hour: 12,
    minute: 5,
    day_of_week: 5,
    day: 10,
    month: 7,
};

/// A bar with one place of every sort.
fn full_layout() -> BarLayout {
    BarLayout {
        start: rect(0, 0, 40, 40),
        pinned: vec![rect(40, 0, 40, 40)],
        tasks: vec![rect(80, 0, 100, 40)],
        overflow: Some(rect(180, 0, 20, 40)),
        tray: vec![rect(200, 0, 20, 40)],
    }
}

fn state() -> BarState {
    let mut st = BarState::new(
        Config::default(),
        true,
        true,
        vec![(r"C:\pin.lnk".to_string(), None)],
        vec![Bar::new(9, 96, (0, 0, 1920, 1080), full_layout())],
        0xc123,
    );
    st.tasks = vec![window(1, "one"), window(2, "two"), window(3, "three")];
    st
}

fn tray_icon(owner: isize, uid: u32, hidden: bool) -> TrayIcon {
    TrayIcon {
        owner,
        uid,
        callback: 0x500,
        version: 0,
        hidden,
        tip: String::new(),
        hicon: 0,
        rev: 2,
    }
}

fn region(left: i64, right: i64) -> Edges {
    Edges {
        left,
        top: 0,
        right,
        bottom: 40,
    }
}

#[test]
fn points_belong_to_what_is_there() {
    let l = full_layout();
    assert_eq!(l.hit_test(5, 5), Some(Hit::Start));
    assert_eq!(l.hit_test(45, 5), Some(Hit::Pinned(0)));
    assert_eq!(l.hit_test(85, 5), Some(Hit::Task(0)));
    assert_eq!(l.hit_test(185, 5), Some(Hit::Overflow));
    assert_eq!(l.hit_test(205, 5), Some(Hit::Tray(0)));
    assert_eq!(l.hit_test(220, 5), None);
}

#[test]
fn a_bar_has_room_for_everything() {
    let l = bar_layout(1920, 48, 96, 2, 3, 2);
    assert_eq!(l.start, rect(10, 6, 36, 36));
    assert_eq!(l.pinned, vec![rect(52, 6, 36, 36), rect(94, 6, 36, 36)]);
    assert_eq!(
        l.tasks,
        vec![
            rect(136, 6, 180, 36),
            rect(322, 6, 180, 36),
            rect(508, 6, 180, 36)
        ]
    );
    assert_eq!(l.overflow, None);
    // The tray ends where the clock begins.
    assert_eq!(l.tray, vec![rect(1778, 6, 24, 36), rect(1808, 6, 24, 36)]);
}

#[test]
fn a_bar_without_pins_and_tray_is_start_and_buttons() {
    let l = bar_layout(1920, 48, 96, 0, 3, 0);
    assert_eq!(l.start, start_rect(48, 96));
    assert_eq!(l.tasks, button_rects(1920, 48, 3, 96));
    assert!(l.pinned.is_empty() && l.tray.is_empty() && l.overflow.is_none());
}

#[test]
fn windows_without_a_button_are_behind_the_chip() {
    let l = bar_layout(400, 48, 96, 1, 10, 1);
    assert_eq!(l.pinned, vec![rect(52, 6, 36, 36)]);
    assert_eq!(l.tasks, vec![rect(94, 6, 48, 36), rect(148, 6, 48, 36)]);
    assert_eq!(l.overflow, Some(rect(202, 6, 28, 36)));
    assert_eq!(l.tray, vec![rect(288, 6, 24, 36)]);
    // The chip is there even where no button is.
    let tiny = bar_layout(60, 48, 96, 3, 4, 5);
    assert!(tiny.tasks.is_empty() && tiny.pinned.is_empty() && tiny.tray.is_empty());
    assert_eq!(tiny.overflow, Some(rect(52, 6, 28, 36)));
    // Every window is behind a button or behind the chip.
    let mut st = state();
    st.tasks = (1..=10).map(|n| window(n, "w")).collect();
    st.relayout_all(&vec![(400, 48)]);
    let shown = st.bars[0].layout.tasks.len();
    let chip = st.bars[0].layout.overflow.unwrap();
    match st.on_click(9, chip.x, chip.y) {
        BarClick::Overflow { items, .. } => {
            let hidden: Vec<isize> = items.iter().map(|i| i.0).collect();
            let rest: Vec<isize> = (shown as isize + 1..=10).collect();
            assert_eq!(hidden, rest);
        }
        other => panic!("{other:?}"),
    }
}

#[test]
fn nothing_on_a_bar_overlaps() {
    for (w, dpi, pinned, tasks, tray) in [
        (1920, 96, 5, 7, 4),
        (800, 96, 40, 9, 9),
        (800, 144, 2, 90, 40),
        (300, 96, 1, 1, 30),
        (1, 96, 2, 2, 2),
        (1920, 1, 9, 9, 9),
    ] {
        let l = bar_layout(w, 48, dpi, pinned, tasks, tray);
        let mut all = vec![l.start];
        all.extend(&l.pinned);
        all.extend(&l.tasks);
        all.extend(l.overflow);
        all.extend(&l.tray);
        assert!(all.iter().all(|r| r.w >= 1 && r.h >= 1));
        assert!(all.windows(2).all(|p| p[0].x + p[0].w <= p[1].x), "{all:?}");
        assert_eq!(l.overflow.is_some(), l.tasks.len() < tasks);
        for (i, r) in l.tray.iter().enumerate() {
            assert_eq!(l.hit_test(r.x, r.y), Some(Hit::Tray(i)));
        }
    }
}

#[test]
fn clicks_do_what_is_under_them() {
    let st = state();
    assert_eq!(st.on_click(9, 5, 5), BarClick::Start);
    assert_eq!(
        st.on_click(9, 45, 5),
        BarClick::Launch(r"C:\pin.lnk".to_string())
    );
    assert_eq!(st.on_click(9, 85, 5), BarClick::Activate(1));
    assert_eq!(
        st.on_click(9, 185, 5),
        BarClick::Overflow {
            items: vec![(2, "two".to_string()), (3, "three".to_string())],
            x: 180,
            y: 0,
        }
    );
    assert_eq!(st.on_click(9, 205, 5), BarClick::Nothing);
    assert_eq!(st.on_click(8, 5, 5), BarClick::Nothing);
    assert!(st.is_live_bar(9) && !st.is_live_bar(8));
}

#[test]
fn a_stale_button_does_nothing() {
    let mut st = state();
    st.tasks.clear();
    st.pinned.clear();
    assert_eq!(st.on_click(9, 85, 5), BarClick::Nothing);
    assert_eq!(st.on_click(9, 45, 5), BarClick::Nothing);
}

#[test]
fn tray_clicks_are_forwarded() {
    let mut st = state();
    st.tray.icons = vec![TrayIcon {
        owner: 50,
        uid: 3,
        callback: 0x500,
        version: 0,
        hidden: false,
        tip: String::new(),
        hicon: 0,
        rev: 0,
    }];
    let post = st
        .forward_tray_mouse(9, 205, 5, WM_LBUTTONDOWN, 1000, 1060)
        .unwrap();
    assert_eq!((post.owner, post.callback), (50, 0x500));
    assert_eq!(post.params, vec![(3, WM_LBUTTONDOWN as isize)]);
    assert_eq!(
        st.forward_tray_mouse(9, 5, 5, WM_LBUTTONDOWN, 0, 0),
        None
    );
}

#[test]
fn the_mouse_hovers_per_bar() {
    let mut st = state();
    st.bars
        .push(Bar::new(10, 96, (1920, 0, 1920, 1080), full_layout()));
    assert_eq!(st.on_mouse_move(9, 5, 5), (true, true));
    assert_eq!(st.on_mouse_move(9, 6, 5), (false, false));
    assert_eq!(st.bars[1].hovered, None);
    st.tracking_failed(9);
    assert_eq!(st.on_mouse_move(9, 6, 5), (false, true));
    assert_eq!(st.on_mouse_move(77, 6, 5), (false, false));
    assert!(st.on_mouse_leave(9));
    assert!(!st.on_mouse_leave(9));
    assert!(st.on_dpi_changed(10, 144));
    assert!(!st.on_dpi_changed(10, 144));
    assert_eq!((st.bars[0].dpi, st.bars[1].dpi), (96, 144));
}

#[test]
fn bar_messages_are_sorted() {
    assert_eq!(wndproc(0xc123, 0, 0, 0xc123), BarEvent::ConfigChanged);
    assert_eq!(wndproc(0, 0, 0, 0), BarEvent::Other);
    assert_eq!(
        wndproc(WM_WINDOWS_CHANGED, 0, 0, 0),
        BarEvent::WindowsChanged
    );
    assert_eq!(
        wndproc(WM_LBUTTONDOWN, 0, 0x0004_0003, 0),
        BarEvent::LeftDown(3, 4)
    );
    assert_eq!(
        wndproc(WM_RBUTTONUP, 0, 0x0004_0003, 0),
        BarEvent::Button(3, 4)
    );
    assert_eq!(
        wndproc(WM_MOUSEMOVE, 0, 0x0004_ffff, 0),
        BarEvent::MouseMove(-1, 4)
    );
    assert_eq!(wndproc(WM_MOUSELEAVE, 0, 0, 0), BarEvent::MouseLeave);
    assert_eq!(wndproc(WM_TIMER, CLOCK_TIMER, 0, 0), BarEvent::Tick);
    assert_eq!(wndproc(WM_TIMER, 2, 0, 0), BarEvent::Other);
    assert_eq!(wndproc(WM_DISPLAYCHANGE, 0, 0, 0), BarEvent::DisplayChanged);
    assert_eq!(
        wndproc(WM_DPICHANGED, 0x90_0090, 0, 0),
        BarEvent::DpiChanged(144)
    );
    assert_eq!(wndproc(WM_DPICHANGED, 0, 0, 0), BarEvent::DpiChanged(1));
    assert_eq!(wndproc(WM_DESTROY, 0, 0, 0), BarEvent::Destroyed);
}

#[test]
fn the_clock_has_two_lines() {
    assert_eq!(
        clock_strings(&NOON, true),
        ("12:05".to_string(), "Fri 10 Jul".to_string())
    );
    let odd = LocalTime {
        hour: 7,
        minute: 59,
        day_of_week: 7,
        day: 1,
        month: 13,
    };
    assert_eq!(
        clock_strings(&odd, true),
        ("07:59".to_string(), "Sun 1 Dec".to_string())
    );
    assert_eq!(clock_strings(&odd, false).1, "");
}

#[test]
fn a_tick_redraws_where_the_minute_changed() {
    let mut st = state();
    assert_eq!(st.on_timer(&NOON, &vec![]), Repaint::Redraw);
    st.set_clock(&NOON);
    assert_eq!(st.clock, "12:05");
    assert_eq!(st.on_timer(&NOON, &vec![]), Repaint::Nothing);
    assert_eq!(st.on_timer(&NOON, &vec![50]), Repaint::Relayout);
}

#[test]
fn a_changed_configuration_is_taken_over() {
    let mut st = state();
    assert_eq!(st.on_config_changed(Config::default()), None);
    let mut c = Config::default();
    c.taskbar.height = 60;
    assert_eq!(st.on_config_changed(c.clone()), Some(false));
    assert_eq!(st.config, c);
    c.taskbar.pinned = vec!["p.lnk".to_string()];
    assert_eq!(st.on_config_changed(c.clone()), Some(true));
    // The same path written otherwise is no other launcher.
    c.taskbar.pinned = vec!["p.lnk/".to_string()];
    assert_eq!(st.on_config_changed(c.clone()), None);
    c.taskbar.height = 70;
    assert_eq!(st.on_config_changed(c), Some(false));
    st.set_pinned(vec![("p.lnk".to_string(), Some(icon()))]);
    assert_eq!(st.pinned.len(), 1);
    assert!(st.on_drawn());
    assert!(!st.on_drawn());
}

#[test]
fn backdrops_are_pushed_once() {
    let mut st = state();
    assert!(st.backdrop_targets().is_empty());
    st.config.taskbar.backdrop = Backdrop::Mica;
    let targets = st.backdrop_targets();
    assert_eq!(targets, vec![9]);
    st.record_backdrop(&targets, Backdrop::Mica);
    assert!(st.backdrop_targets().is_empty());
    assert_eq!(
        backdrop_plan(Backdrop::Mica),
        BackdropPlan {
            material: 2,
            rounded: true,
            margin: -1
        }
    );
    assert_eq!(
        backdrop_plan(Backdrop::Acrylic),
        BackdropPlan {
            material: 3,
            rounded: true,
            margin: -1
        }
    );
    assert_eq!(
        backdrop_plan(Backdrop::Plain),
        BackdropPlan {
            material: 1,
            rounded: false,
            margin: 0
        }
    );
}

#[test]
fn bars_are_placed_on_their_monitors() {
    assert_eq!(
        place_bar((1920, -100, 1920, 1080), 48, 8, 96),
        rect(1928, 924, 1904, 48)
    );
    let st = state();
    let placed = st.apply_layout(None);
    assert_eq!(placed.len(), 1);
    assert_eq!(placed[0].hwnd, 9);
    assert!(st.apply_layout(Some(8)).is_empty());
    assert_eq!(st.redraw_bars(None), vec![0]);
    assert!(st.redraw_bars(Some(8)).is_empty());
}

#[test]
fn a_relayout_makes_room_for_every_window() {
    let mut st = state();
    st.bars[0].hovered = Some(Hit::Start);
    st.relayout_all(&vec![(1920, 48)]);
    assert_eq!(st.bars[0].layout, bar_layout(1920, 48, 96, 1, 3, 0));
    st.tray.icons = vec![tray_icon(50, 3, false), tray_icon(50, 4, true)];
    st.relayout_all(&vec![(1920, 48)]);
    assert_eq!(st.bars[0].layout, bar_layout(1920, 48, 96, 1, 3, 1));
    assert_eq!(st.bars[0].hovered, None);
}

#[test]
fn windows_are_merged_and_icons_follow() {
    let mut st = state();
    st.icons = HashMap::from([(1, None), (2, Some(icon())), (3, None)]);
    let fresh = vec![window(4, "four"), window(1, "one")];
    let r = st.refresh_windows(&fresh, 4);
    assert_eq!(r.repaint, Repaint::Relayout);
    assert_eq!(
        st.tasks.iter().map(|w| w.hwnd).collect::<Vec<_>>(),
        vec![1, 4]
    );
    let fetched = r.added.iter().map(|w| (w.hwnd, Some(icon()))).collect();
    st.store_icons(&r.removed, fetched);
    let mut have: Vec<isize> = st.icons.keys().copied().collect();
    have.sort();
    assert_eq!(have, vec![1, 4]);
    let again = st.refresh_windows(&fresh, 4);
    assert_eq!(again.repaint, Repaint::Nothing);
    let renamed = vec![window(4, "4"), window(1, "one")];
    assert_eq!(st.refresh_windows(&renamed, 4).repaint, Repaint::Redraw);
    assert_eq!(st.refresh_windows(&renamed, 1).repaint, Repaint::Redraw);
}

#[test]
fn every_monitor_gets_a_bar() {
    let m = monitor(-1920, 0, 0, 1080, Some(144), 96);
    assert_eq!((m.x, m.y, m.w, m.h, m.dpi), (-1920, 0, 1920, 1080, 144));
    assert_eq!(monitor(0, 0, 1, 1, Some(0), 120).dpi, 120);
    assert_eq!(monitor(0, 0, 1, 1, None, 0).dpi, 1);
    assert_eq!(monitors(vec![m], true, 800, 600, 96), vec![m]);
    let primary = Monitor {
        x: 0,
        y: 0,
        w: 800,
        h: 600,
        dpi: 96,
    };
    assert_eq!(monitors(vec![], true, 800, 600, 96), vec![primary]);
    assert_eq!(monitors(vec![m], false, 800, 600, 96), vec![primary]);
}

#[test]
fn display_changes_during_a_rebuild_queue_one_more() {
    let mut r = Rebuild::new();
    assert!(r.rebuild_bars());
    assert!(!r.rebuild_bars());
    assert!(!r.rebuild_bars());
    assert!(r.run_over());
    assert!(!r.run_over());
    assert_eq!(r, Rebuild::new());
}

#[test]
fn a_rebuild_ends_with_bars_or_with_the_program() {
    let mut step = RebuildStep::DropMenu;
    for _ in 0..10 {
        step = rebuild_bars_once(step, true);
    }
    assert_eq!(step, RebuildStep::Done);
    let mut step = RebuildStep::DropMenu;
    for _ in 0..10 {
        step = rebuild_bars_once(step, false);
    }
    assert_eq!(step, RebuildStep::Quit);
    let mut st = state();
    assert!(!st.take_menu());
    assert_eq!(st.take_bars(), vec![9]);
    assert!(!st.is_live_bar(9));
    st.log_next_paint = false;
    st.install_bars(vec![Bar::new(11, 96, (0, 0, 1, 1), full_layout())]);
    assert!(st.is_live_bar(11) && st.log_next_paint);
}

#[test]
fn a_frame_draws_everything_in_order() {
    let mut st = state();
    // The hidden icon has no cell.
    st.tray.icons = vec![tray_icon(50, 3, true), tray_icon(50, 4, false)];
    st.tray.pixels = vec![TrayPixels {
        owner: 50,
        uid: 4,
        icon: Some(icon()),
    }];
    assert_eq!(st.frame(0).tray.len(), 1);
    assert_eq!((st.frame(0).tray[0].uid, st.frame(0).tray[0].rev), (4, 2));
    st.config.taskbar.corner_radius = 10;
    st.set_clock(&NOON);
    st.active = 1;
    st.bars[0].hovered = Some(Hit::Task(0));
    let ops = draw(&st.frame(0), &vec![1], 400, 40);
    let bar = &st.config.taskbar;
    let button = Edges {
        left: 80,
        top: 0,
        right: 180,
        bottom: 40,
    };
    assert_eq!(
        ops,
        vec![
            BarOp::Clear,
            BarOp::Ground {
                color: bar.color,
                alpha: bar.alpha,
                radius: 10
            },
            BarOp::Chip {
                at: region(0, 40),
                radius: 6,
                strength: 8
            },
            BarOp::StartGlyph {
                at: region(0, 40),
                ink: bar.text_color
            },
            BarOp::Chip {
                at: region(40, 80),
                radius: 6,
                strength: 8
            },
            BarOp::Label {
                text: "p".to_string(),
                at: region(40, 80),
                ink: bar.text_color
            },
            BarOp::Chip {
                at: button,
                radius: 6,
                strength: 26
            },
            BarOp::WindowIcon {
                hwnd: 1,
                button,
                left: 90,
                size: 16
            },
            BarOp::Title {
                text: "one".to_string(),
                at: Edges {
                    left: 112,
                    right: 170,
                    ..button
                },
                ink: bar.text_color,
            },
            BarOp::Chip {
                at: region(180, 200),
                radius: 6,
                strength: 8
            },
            BarOp::Label {
                text: "\u{bb}".to_string(),
                at: region(180, 200),
                ink: bar.text_color
            },
            BarOp::TrayIcon {
                index: 0,
                at: region(200, 220),
                size: 16
            },
            BarOp::Clock {
                text: if bar.show_date {
                    "12:05\nFri 10 Jul".to_string()
                } else {
                    "12:05".to_string()
                },
                at: Edges {
                    left: 16,
                    top: 0,
                    right: 384,
                    bottom: 40
                },
                ink: bar.text_color,
            },
        ]
    );
}

#[test]
fn brighter_chips_stand_out() {
    assert_eq!(chip_alpha(false, false), 8);
    assert_eq!(chip_alpha(false, true), 14);
    assert_eq!(chip_alpha(true, false), 22);
    assert_eq!(chip_alpha(true, true), 26);
}

#[test]
fn the_device_keeps_the_icons_of_listed_windows() {
    let windows = vec![window(1, "a"), window(2, "b"), window(3, "c")];
    let icons = HashMap::from([(1, Some(icon())), (2, Some(icon())), (3, None)]);
    let sync = sync_icon_cache(&vec![1, 8], &windows, &icons);
    assert_eq!(sync.dropped, vec![8]);
    assert_eq!(sync.uploads, vec![2]);
}

#[test]
fn hardware_comes_before_software() {
    assert_eq!(next_driver(None), Some(Driver::Hardware));
    assert_eq!(next_driver(Some(Driver::Hardware)), Some(Driver::Warp));
    assert_eq!(next_driver(Some(Driver::Warp)), None);
}

#[test]
fn pinned_icons_and_hovered_cells_are_drawn() {
    let mut st = state();
    st.pinned = vec![("C:/".to_string(), Some(icon()))];
    st.tray.icons = vec![tray_icon(50, 3, false)];
    st.bars[0].hovered = Some(Hit::Tray(0));
    let ops = draw(&st.frame(0), &vec![], 400, 40);
    assert!(ops.contains(&BarOp::PinnedIcon {
        index: 0,
        at: region(40, 80),
        size: 16
    }));
    // A cell lights up under the mouse; without an image nothing is in it.
    assert!(ops.contains(&BarOp::Chip {
        at: region(200, 220),
        radius: 6,
        strength: 14
    }));
    assert!(!ops.iter().any(|op| matches!(op, BarOp::TrayIcon { .. })));
}
