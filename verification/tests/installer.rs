//! The manager: its model, its flows, its command line and what it draws.
use winrestyle::autostart::{AutostartEntry, Source};
use winrestyle::config::Config;
use winrestyle::geometry::Edges;
use winrestyle::installer::app::{
    build_model, build_selected_config, effective_dpi, min_track_size, shell_status_line,
    window_origin, wndproc, ClickEffect, Manager, ManagerEvent, ShellState, WM_DPICHANGED,
    WM_LBUTTONUP, WM_MOUSEWHEEL, WM_PAINT, WM_SIZE,
};
use winrestyle::installer::cli::{
    apply, command, hotkey_line, restore, status, unknown_command, usage, Command,
};
use winrestyle::installer::flow::{
    activation_dialog, apply_dialog, do_apply, restore_dialog, ApplyFlow, Failure,
};
use winrestyle::installer::render::{client_size, draw, paint_once, DrawOp, Font, Ink, Paint};
use winrestyle::installer::view::Hit;
use winrestyle::manager::ApplyOutcome;
use winrestyle::paint::{do_paint, PaintResult, PaintStep};
use winrestyle::shell::RestoreOutcome;

fn entries() -> Vec<AutostartEntry> {
    vec![
        AutostartEntry::new(Source::HkcuRun, "OneDrive", "od.exe"),
        AutostartEntry::new(Source::HklmRun, "Foo", "foo.exe"),
    ]
}

fn model() -> Manager {
    let mut config = Config::default();
    config.wallpaper.enabled = false;
    config.autostart.disabled = vec!["hklm-run:foo".to_string()];
    build_model(96, config, entries(), "subtitle".to_string())
}

#[test]
fn a_fresh_model_shows_the_config() {
    let m = model();
    assert_eq!(m.selected, vec!["taskbar", "autostart"]);
    assert_eq!(m.entry_checked, vec![true, false]);
    assert_eq!((m.scroll, m.busy, m.status.as_str()), (0, false, ""));
    // Nothing touched: nothing changes.
    assert_eq!(build_selected_config(&m), m.base_config);
}

#[test]
fn clicks_toggle_what_they_land_on() {
    let mut m = model();
    let l = m.current_layout(560, 640);
    let wallpaper = l.components[1];
    assert_eq!(
        m.on_click(&l, wallpaper.x + 1, wallpaper.y + 1),
        ClickEffect::Redraw
    );
    assert!(m.selected.contains(&"wallpaper".to_string()));
    assert_eq!(
        m.on_click(&l, wallpaper.x + 1, wallpaper.y + 1),
        ClickEffect::Redraw
    );
    assert!(!m.selected.contains(&"wallpaper".to_string()));
    let first = l.startup[0];
    m.on_click(&l, first.x + 1, first.y + 1);
    assert_eq!(m.entry_checked, vec![false, false]);
    assert_eq!(
        m.on_click(&l, l.restyle_btn.x + 1, l.restyle_btn.y + 1),
        ClickEffect::Apply
    );
    assert_eq!(
        m.on_click(&l, l.restore_btn.x + 1, l.restore_btn.y + 1),
        ClickEffect::Restore
    );
    assert_eq!(m.on_click(&l, 0, 0), ClickEffect::Nothing);
    m.busy = true;
    assert_eq!(
        m.on_click(&l, l.restyle_btn.x + 1, l.restyle_btn.y + 1),
        ClickEffect::Nothing
    );
    assert_eq!(
        build_selected_config(&m).autostart.disabled,
        vec!["hklm-run:foo", "hkcu-run:OneDrive"]
    );
}

#[test]
fn the_mouse_hovers_and_leaves() {
    let mut m = model();
    let l = m.current_layout(560, 640);
    let row = l.components[0];
    assert_eq!(m.on_mouse_move(&l, row.x + 1, row.y + 1), (true, true));
    assert_eq!(m.hovered, Some(Hit::Component(0)));
    assert_eq!(m.on_mouse_move(&l, row.x + 2, row.y + 1), (false, false));
    m.tracking_failed();
    assert_eq!(m.on_mouse_move(&l, row.x + 2, row.y + 1), (false, true));
    assert!(m.on_mouse_leave());
    assert!(!m.on_mouse_leave());
}

#[test]
fn the_wheel_scrolls_three_rows_a_notch() {
    let mut m = build_model(
        96,
        Config::default(),
        (0..40)
            .map(|i| AutostartEntry::new(Source::HkcuRun, &format!("e{i}"), "x"))
            .collect(),
        String::new(),
    );
    let l = m.current_layout(560, 300);
    m.on_wheel(&l, -120);
    assert_eq!(m.scroll, 156);
    m.on_wheel(&l, 60);
    assert_eq!(m.scroll, 78);
    m.on_wheel(&l, 1200);
    assert_eq!(m.scroll, 0);
    m.scroll = 100_000;
    m.keep_scroll_valid(&l);
    assert_eq!(m.scroll, l.max_scroll());
}

#[test]
fn messages_carry_packed_numbers() {
    assert_eq!(wndproc(WM_PAINT, 0, 0), ManagerEvent::Paint);
    assert_eq!(
        wndproc(WM_LBUTTONUP, 0, 0x0003_fffe),
        ManagerEvent::Click(-2, 3)
    );
    assert_eq!(
        wndproc(WM_MOUSEWHEEL, 0xff88_0000, 0),
        ManagerEvent::Wheel(-120)
    );
    assert_eq!(
        wndproc(WM_SIZE, 0, 0x0000_0280),
        ManagerEvent::Resize(640, 1)
    );
    assert_eq!(
        wndproc(WM_DPICHANGED, 0x0090_0090, 0),
        ManagerEvent::DpiChanged(144)
    );
    assert_eq!(wndproc(0x1234, 0, 0), ManagerEvent::Other);
}

#[test]
fn the_window_is_centred_where_it_fits() {
    assert_eq!(window_origin(1920, 1080), (Some(680), Some(200)));
    assert_eq!(window_origin(560, 600), (None, None));
    assert_eq!(effective_dpi(0), 96);
    assert_eq!(effective_dpi(144), 144);
    assert_eq!(min_track_size(144), (570, 480));
    assert_eq!(client_size(0, 0, 0, 5), (1, 5));
}

#[test]
fn the_shell_state_has_a_line() {
    assert_eq!(
        shell_status_line(&ShellState::Installed { running: true }),
        "WinRestyle is installed and active in this session."
    );
    assert_eq!(
        shell_status_line(&ShellState::Installed { running: false }),
        "WinRestyle is installed — active at the next login (or Restyle Now → activate)."
    );
    assert_eq!(
        shell_status_line(&ShellState::NotInstalled),
        "Not installed — the standard Windows shell is active."
    );
    assert_eq!(
        shell_status_line(&ShellState::Unknown("denied".to_string())),
        "Could not read shell state: denied"
    );
}

fn failure() -> Failure {
    Failure {
        message: "short".to_string(),
        chain: "short: long".to_string(),
    }
}

#[test]
fn an_apply_shows_then_asks_then_activates() {
    let mut step = ApplyFlow::Apply;
    for expected in [
        ApplyFlow::ShowApplied,
        ApplyFlow::Ask,
        ApplyFlow::Activate,
        ApplyFlow::Finish,
        ApplyFlow::Finish,
    ] {
        step = do_apply(step, true);
        assert_eq!(step, expected);
    }
    assert_eq!(
        do_apply(ApplyFlow::Apply, false),
        ApplyFlow::ShowApplyFailure
    );
    assert_eq!(do_apply(ApplyFlow::Ask, false), ApplyFlow::Finish);
    assert_eq!(
        do_apply(ApplyFlow::Activate, false),
        ApplyFlow::ShowActivationFailure
    );
    let shown = apply_dialog(&Ok(ApplyOutcome::applied()));
    assert_eq!(shown.caption, "Restyle applied");
    assert!(!shown.warning);
    let shown = apply_dialog(&Err(failure()));
    assert_eq!((shown.body.as_str(), shown.warning), ("short: long", true));
    assert_eq!(activation_dialog(&failure()).caption, "Could not activate");
}

#[test]
fn an_apply_settles_the_model() {
    let mut m = model();
    let config = m.begin_apply();
    assert!(m.busy && m.status.starts_with("Applying…"));
    m.begin_activation();
    assert!(m.status.starts_with("Activating"));
    let mut changed = config.clone();
    changed.wallpaper.enabled = true;
    m.finish_apply(
        changed.clone(),
        &Err(failure()),
        &None,
        "again".to_string(),
    );
    assert!(!m.busy);
    assert_eq!(m.status, "Apply failed: short");
    assert_eq!(m.subtitle, "again");
    assert_eq!(m.base_config, config);
    m.finish_apply(
        changed.clone(),
        &Ok(ApplyOutcome::applied()),
        &Some(Err(failure())),
        String::new(),
    );
    assert_eq!(m.status, "Live activation failed: short");
    assert_eq!(m.base_config, changed);
    m.finish_apply(
        changed,
        &Ok(ApplyOutcome::applied()),
        &Some(Ok(ApplyOutcome::activated())),
        String::new(),
    );
    assert_eq!(m.status, "WinRestyle is now your desktop.");
}

#[test]
fn a_restore_settles_the_model() {
    let mut m = model();
    m.begin_restore();
    assert!(m.busy);
    m.finish_restore(&Ok(RestoreOutcome::RemovedOverride), String::new());
    assert_eq!(m.status, "Restore: RemovedOverride.");
    m.finish_restore(&Err(failure()), String::new());
    assert_eq!(m.status, "Restore failed: short");
    assert!(!m.busy);
    let shown = restore_dialog(&Ok(RestoreOutcome::RestoredOriginal));
    assert!(shown.body.starts_with("RestoredOriginal. If WinRestyle"));
    assert!(restore_dialog(&Err(failure())).warning);
}

#[test]
fn the_first_argument_is_the_command() {
    assert_eq!(command(None), Command::Gui);
    assert_eq!(command(Some("gui")), Command::Gui);
    assert_eq!(command(Some("status")), Command::Status);
    assert_eq!(command(Some("apply")), Command::Apply);
    assert_eq!(command(Some("activate")), Command::Activate);
    assert_eq!(command(Some("deactivate")), Command::Deactivate);
    assert_eq!(command(Some("restore")), Command::Restore);
    for help in ["--help", "-h", "help"] {
        assert_eq!(command(Some(help)), Command::Help);
    }
    assert_eq!(
        command(Some("Status")),
        Command::Unknown("Status".to_string())
    );
    assert_eq!(unknown_command("a\"b"), "unknown command \"a\\\"b\"");
    assert!(usage().contains("wr-installer restore      restore the original shell"));
}

#[test]
fn the_commands_print_their_lines() {
    assert_eq!(
        status(Some(&r"C:\x.exe".to_string()), true),
        vec![
            r#"HKCU Shell (current): Some("C:\\x.exe")"#.to_string(),
            "WinRestyle backup present: true".to_string(),
        ]
    );
    assert_eq!(
        status(None, false)[0],
        "HKCU Shell (current): None".to_string()
    );
    assert_eq!(
        apply(r"C:\WR\wr-installer.exe"),
        Ok(r"C:\WR\wr-watchdog.exe".to_string())
    );
    assert_eq!(apply(""), Err("installer has no parent dir"));
    assert_eq!(hotkey_line(), "emergency restore hotkey: Win + Ctrl + F1");
    assert_eq!(
        restore(RestoreOutcome::NothingToRestore),
        "restore outcome: NothingToRestore"
    );
}

#[test]
fn a_paint_draws_content_then_footer() {
    let mut m = model();
    m.hovered = Some(Hit::RestyleNow);
    let f = paint_once(&m, 560, 640);
    assert_eq!(f.startup[0].detail, "Run (user) · od.exe");
    assert_eq!(f.components.len(), 3);
    assert!(f.components[0].checked && !f.components[1].checked);
    let ops = draw(&f);
    assert_eq!(ops[0], DrawOp::Clear);
    assert_eq!(ops[1], DrawOp::Clip { bottom: 574 });
    assert_eq!(ops[2], DrawOp::ScrollBy(0));
    assert_eq!(
        ops[3],
        DrawOp::Text {
            text: "WinRestyle".to_string(),
            at: Edges {
                left: 18,
                top: 18,
                right: 542,
                bottom: 52
            },
            font: Font::Title,
            ink: Ink::Plain,
            clip: false,
        }
    );
    let marks = ops
        .iter()
        .filter(|op| matches!(op, DrawOp::CheckMark { .. }))
        .count();
    assert_eq!(marks, 3);
    let outlines = ops
        .iter()
        .filter(|op| matches!(op, DrawOp::Outline { .. }))
        .count();
    assert_eq!(outlines, 2);
    let unclip = ops.iter().position(|op| *op == DrawOp::Unclip).unwrap();
    // The status line is empty and draws nothing: ground and two buttons.
    assert_eq!(ops.len() - unclip - 1, 5);
    assert!(matches!(
        ops[ops.len() - 2],
        DrawOp::Fill {
            paint: Paint::AccentHot,
            ..
        }
    ));
}

#[test]
fn a_row_has_its_box_and_two_lines() {
    let m = model();
    let f = paint_once(&m, 560, 640);
    let row = f.layout.components[0];
    let ops = draw(&f);
    let at = ops
        .iter()
        .position(|op| matches!(op, DrawOp::CheckMark { .. }))
        .unwrap();
    let b = f.layout.checkbox_rect(&row, 96);
    assert_eq!(
        ops[at],
        DrawOp::CheckMark {
            at: Edges {
                left: b.x as i64,
                top: b.y as i64,
                right: (b.x + b.w) as i64,
                bottom: (b.y + b.h) as i64,
            }
        }
    );
    assert_eq!(
        ops[at + 1],
        DrawOp::Text {
            text: "Taskbar".to_string(),
            at: Edges {
                left: (b.x + b.w + 12) as i64,
                top: row.y as i64,
                right: (row.x + row.w - 12) as i64,
                bottom: (row.y + 26) as i64,
            },
            font: Font::Name,
            ink: Ink::Plain,
            clip: true,
        }
    );
}

#[test]
fn an_empty_list_and_a_busy_window_show_it() {
    let mut m = build_model(96, Config::default(), vec![], String::new());
    m.busy = true;
    let ops = draw(&paint_once(&m, 560, 640));
    assert!(ops.iter().any(|op| matches!(
        op,
        DrawOp::Text { text, .. } if text == "No logon startup programs found."
    )));
    let busy = ops
        .iter()
        .filter(|op| {
            matches!(
                op,
                DrawOp::Fill {
                    paint: Paint::Busy,
                    ..
                }
            )
        })
        .count();
    assert_eq!(busy, 2);
}

#[test]
fn a_lost_target_is_drawn_on_once_more() {
    assert_eq!(
        do_paint(PaintStep::Draw, PaintResult::Lost),
        PaintStep::Recreate
    );
    assert_eq!(
        do_paint(PaintStep::Recreate, PaintResult::Good),
        PaintStep::DrawAgain
    );
    assert_eq!(
        do_paint(PaintStep::DrawAgain, PaintResult::Lost),
        PaintStep::Done
    );
    assert_eq!(
        do_paint(PaintStep::Draw, PaintResult::Failed),
        PaintStep::Done
    );
    assert_eq!(
        do_paint(PaintStep::Recreate, PaintResult::Failed),
        PaintStep::Done
    );
}
