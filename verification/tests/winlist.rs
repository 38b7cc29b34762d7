//! Which windows get a button, and the latch behind their refresh.
use winrestyle::taskbar::actions::ActionKind;
use winrestyle::taskbar::tasks::TaskWindow;
use winrestyle::taskbar::winlist::{
    dev_mode, enumerate, icon_bytes, launch_failed, overflow_choice, run_menu_action, same_buttons,
    source_tree, task_window, window_icon, RefreshLatch, WindowFacts, OBJID_WINDOW,
    WS_EX_APPWINDOW, WS_EX_TOOLWINDOW,
};

fn wide(s: &str) -> Vec<u16> {
    s.encode_utf16().collect()
}

fn facts(hwnd: isize, class: &str, title: &str) -> WindowFacts {
    WindowFacts {
        hwnd,
        visible: true,
        ex_style: 0,
        owned: false,
        cloaked: false,
        class: wide(class),
        title: wide(title),
    }
}

#[test]
fn ordinary_windows_get_a_button() {
    let w = task_window(&facts(7, "Notepad", "né")).unwrap();
    assert_eq!((w.hwnd, w.title.as_str()), (7, "né"));
}

#[test]
fn the_rest_gets_none() {
    assert!(task_window(&facts(1, "X", "")).is_none());
    for class in [
        "WinRestyleTaskbar",
        "WinRestyleStartMenu",
        "WinRestyleWallpaper",
        "WinRestyleManager",
        "Progman",
        "WorkerW",
    ] {
        assert!(task_window(&facts(1, class, "t")).is_none());
    }
    let mut f = facts(1, "X", "t");
    f.visible = false;
    assert!(task_window(&f).is_none());
    let mut f = facts(1, "X", "t");
    f.cloaked = true;
    assert!(task_window(&f).is_none());
    let mut f = facts(1, "X", "t");
    f.owned = true;
    assert!(task_window(&f).is_none());
    f.ex_style = WS_EX_APPWINDOW;
    assert!(task_window(&f).is_some());
    f.ex_style = WS_EX_TOOLWINDOW;
    f.owned = false;
    assert!(task_window(&f).is_none());
    f.ex_style = WS_EX_TOOLWINDOW | WS_EX_APPWINDOW;
    assert!(task_window(&f).is_some());
}

#[test]
fn windows_keep_their_order() {
    let list = enumerate(&vec![
        facts(3, "X", "c"),
        facts(2, "Progman", "p"),
        facts(1, "X", "a"),
    ]);
    assert_eq!(list.iter().map(|w| w.hwnd).collect::<Vec<_>>(), vec![3, 1]);
    let same = vec![
        TaskWindow {
            hwnd: 3,
            title: "c".to_string(),
        },
        TaskWindow {
            hwnd: 1,
            title: "b".to_string(),
        },
    ];
    assert!(!same_buttons(&list, &same));
    assert!(same_buttons(&list, &list));
    assert!(!same_buttons(&list, &vec![]));
}

#[test]
fn a_storm_of_events_notifies_once() {
    let mut latch = RefreshLatch::new();
    assert_eq!(latch.win_event(OBJID_WINDOW, 0), None);
    latch.retarget(99);
    assert_eq!(latch.win_event(-4, 0), None);
    assert_eq!(latch.win_event(OBJID_WINDOW, 2), None);
    assert_eq!(latch.win_event(OBJID_WINDOW, 0), Some(99));
    for _ in 0..10 {
        assert_eq!(latch.win_event(OBJID_WINDOW, 0), None);
    }
    latch.ack_refresh();
    assert_eq!(latch.win_event(OBJID_WINDOW, 0), Some(99));
}

#[test]
fn small_choices() {
    assert_eq!(window_icon(&[0, 0, 5, 6]), Some(5));
    assert_eq!(window_icon(&[0, 0]), None);
    assert_eq!(icon_bytes(16, 32), Some(2048));
    assert_eq!(icon_bytes(0, 16), None);
    assert_eq!(icon_bytes(257, 16), None);
    assert!(launch_failed(32) && !launch_failed(33));
    let items = vec![(5, "a".to_string()), (6, "b".to_string())];
    assert_eq!(overflow_choice(&items, 0), None);
    assert_eq!(overflow_choice(&items, 2), Some(6));
    assert_eq!(overflow_choice(&items, 3), None);
}

#[test]
fn a_dev_build_runs_below_a_target_directory() {
    let exe = r"C:\src\winrestyle\Target\release\wr-taskbar.exe";
    assert!(dev_mode(exe));
    assert_eq!(source_tree(exe).as_deref(), Some(r"C:\src\winrestyle"));
    assert!(!dev_mode(r"C:\Program Files\WinRestyle\wr-taskbar.exe"));
    assert!(!dev_mode(r"C:\targets\wr-taskbar.exe"));
    assert!(!dev_mode(r"C:\bin\target"));
    // The innermost one counts.
    assert_eq!(
        source_tree("C:/target/a/target/wr-taskbar.exe").as_deref(),
        Some("C:/target/a")
    );
}

#[test]
fn actions_start_the_installer_or_a_terminal() {
    let dev = r"C:\src\target\debug\wr-taskbar.exe";
    let shipped = r"C:\WinRestyle\wr-taskbar.exe";
    let restore = run_menu_action(ActionKind::Restore, shipped).unwrap();
    assert_eq!(restore.file, r"C:\WinRestyle\wr-installer.exe");
    assert_eq!((restore.arguments, restore.directory), ("deactivate", None));
    let settings = run_menu_action(ActionKind::Settings, dev).unwrap();
    assert_eq!(settings.file, r"C:\src\target\debug\wr-installer.exe");
    assert_eq!(settings.arguments, "");
    let terminal = run_menu_action(ActionKind::Terminal, dev).unwrap();
    assert_eq!(terminal.file, "powershell.exe");
    assert_eq!(terminal.arguments, "-NoExit");
    assert_eq!(terminal.directory.as_deref(), Some(r"C:\src"));
    let tests = run_menu_action(ActionKind::RunTests, dev).unwrap();
    assert_eq!(
        tests.arguments,
        r"-NoExit -ExecutionPolicy Bypass -File scripts\vm-test.ps1 -SkipBuild"
    );
    assert!(run_menu_action(ActionKind::Terminal, shipped).is_none());
    assert!(run_menu_action(ActionKind::RunTests, shipped).is_none());
    assert!(run_menu_action(ActionKind::Settings, "").is_none());
}
