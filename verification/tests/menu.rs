//! The start menu as a window.
use winrestyle::taskbar::actions::ActionKind;
use winrestyle::taskbar::apps::AppEntry;
use winrestyle::taskbar::content::{Group, MenuEntry};
use winrestyle::taskbar::menu::{
    menu_wndproc, redraw_menu, toggle_menu, MenuEvent, MenuTodo, MenuToggle, RowKind, StartMenu,
    REOPEN_DEBOUNCE_MS, VK_DOWN, VK_ESCAPE, VK_RETURN, VK_UP, WM_ACTIVATE, WM_CHAR, WM_DESTROY,
    WM_KEYDOWN, WM_LBUTTONDOWN, WM_MOUSEMOVE, WM_MOUSELEAVE, WM_MOUSEWHEEL,
};

fn apps(names: &[&str]) -> Vec<AppEntry> {
    names
        .iter()
        .map(|n| AppEntry {
            name: n.to_string(),
            path: format!(r"C:\{n}.lnk"),
        })
        .collect()
}

fn open(names: &[&str]) -> StartMenu {
    let mut m = StartMenu::new(360, 520, 96);
    assert!(!m.open_menu(false, apps(names), 360, 520, 96));
    m
}

fn launch(path: &str) -> MenuTodo {
    MenuTodo::Launch(path.to_string())
}

#[test]
fn an_opened_menu_lists_everything() {
    let m = open(&["Alpha", "Beta", "Gamma"]);
    let f = redraw_menu(&m).unwrap();
    let names: Vec<&str> = f.rows.iter().map(|r| r.name.as_str()).collect();
    assert_eq!(
        names,
        vec![
            "Admin",
            "Restore Windows desktop",
            "WinRestyle settings",
            "Apps",
            "Alpha",
            "Beta",
            "Gamma"
        ]
    );
    assert_eq!(f.rows[0].kind, RowKind::Header);
    assert_eq!(f.rows[2].kind, RowKind::Action(ActionKind::Settings));
    assert_eq!(f.rows[5].kind, RowKind::App(r"C:\Beta.lnk".to_string()));
    let selected: Vec<bool> = f.rows.iter().map(|r| r.selected).collect();
    assert_eq!(
        selected,
        vec![false, true, false, false, false, false, false]
    );
    assert!(!f.no_matches && f.scrollbar.is_none());
    assert!(redraw_menu(&StartMenu::new(360, 520, 96)).is_none());
}

#[test]
fn keys_move_launch_and_dismiss() {
    let mut m = open(&["Alpha", "Beta"]);
    assert_eq!(m.on_menu_key(VK_UP), MenuTodo::Nothing);
    assert_eq!(
        m.on_menu_key(VK_RETURN),
        MenuTodo::Run(ActionKind::Restore)
    );
    assert_eq!(m.on_menu_key(VK_DOWN), MenuTodo::Redraw);
    assert_eq!(
        m.on_menu_key(VK_RETURN),
        MenuTodo::Run(ActionKind::Settings)
    );
    // Past the header of the apps.
    assert_eq!(m.on_menu_key(VK_DOWN), MenuTodo::Redraw);
    assert_eq!(m.state.selected, 4);
    assert_eq!(m.on_menu_key(VK_RETURN), launch(r"C:\Alpha.lnk"));
    assert_eq!(m.on_menu_key(VK_DOWN), MenuTodo::Redraw);
    assert_eq!(m.on_menu_key(VK_RETURN), launch(r"C:\Beta.lnk"));
    assert_eq!(m.on_menu_key(VK_DOWN), MenuTodo::Nothing);
    assert_eq!(m.on_menu_key(VK_ESCAPE), MenuTodo::Hide);
    assert_eq!(m.on_menu_key(0x41), MenuTodo::Nothing);
    assert_eq!(
        StartMenu::new(360, 520, 96).on_menu_key(VK_RETURN),
        MenuTodo::Nothing
    );
}

#[test]
fn typing_filters() {
    let mut m = open(&["Alpha", "Beta", "Gamma"]);
    m.on_menu_key(VK_DOWN);
    assert!(m.on_menu_char('b' as u32));
    // The group of actions is gone, and its header with it.
    assert_eq!(
        m.content,
        vec![MenuEntry::Header(Group::Apps), MenuEntry::App(1)]
    );
    assert_eq!(m.state.selected, 1);
    // Half of a surrogate pair is dropped.
    assert!(!m.on_menu_char(0xd800));
    assert!(m.on_menu_char('x' as u32));
    assert!(redraw_menu(&m).unwrap().no_matches);
    assert_eq!(m.on_menu_key(VK_RETURN), MenuTodo::Nothing);
    assert_eq!(m.on_menu_key(VK_DOWN), MenuTodo::Nothing);
    assert!(m.on_menu_char(0x08));
    assert!(m.on_menu_char(0x08));
    assert!(!m.on_menu_char(0x08));
    assert_eq!(m.content.len(), 7);
}

#[test]
fn the_wheel_scrolls_and_forgets_the_hovered_row() {
    let names: Vec<String> = (0..60).map(|i| format!("app{i:02}")).collect();
    let refs: Vec<&str> = names.iter().map(|s| s.as_str()).collect();
    let mut m = open(&refs);
    let row = m.layout.rows[1].1;
    assert_eq!(m.on_menu_mouse_move(row.x + 1, row.y + 1), (true, true));
    assert_eq!(m.hovered, Some(1));
    assert!(m.on_menu_wheel(-120));
    assert_eq!((m.state.scroll, m.hovered), (3, None));
    assert!(!m.on_menu_wheel(60));
    assert!(m.on_menu_wheel(120));
    assert!(!m.on_menu_wheel(120));
    assert_eq!(m.state.selected, 1);
}

#[test]
fn the_mouse_picks_rows() {
    let mut m = open(&["Alpha", "Beta"]);
    // A header neither lights up nor does anything.
    let header = m.layout.rows[3].1;
    assert_eq!(m.on_menu_click(header.x, header.y), MenuTodo::Nothing);
    assert_eq!(m.on_menu_mouse_move(header.x, header.y), (false, true));
    m.tracking_failed();
    let row = m.layout.rows[5].1;
    assert_eq!(m.on_menu_click(row.x, row.y), launch(r"C:\Beta.lnk"));
    assert_eq!(m.on_menu_click(0, 0), MenuTodo::Nothing);
    assert_eq!(m.on_menu_mouse_move(row.x, row.y), (true, true));
    assert!(redraw_menu(&m).unwrap().rows[5].hovered);
    assert_eq!(m.on_menu_mouse_move(row.x, row.y), (false, false));
    m.tracking_failed();
    assert_eq!(m.on_menu_mouse_move(row.x, row.y), (false, true));
    assert!(m.on_menu_mouse_leave());
    assert!(!m.on_menu_mouse_leave());
}

#[test]
fn the_click_that_dismissed_does_not_reopen() {
    assert_eq!(toggle_menu(&None, 5), MenuToggle::Open);
    let mut m = open(&["Alpha"]);
    assert!(m.hide_menu(1_000));
    assert!(!m.hide_menu(2_000));
    let hidden = Some(m);
    assert_eq!(toggle_menu(&hidden, 1_000), MenuToggle::Nothing);
    assert_eq!(
        toggle_menu(&hidden, 1_000 + REOPEN_DEBOUNCE_MS - 1),
        MenuToggle::Nothing
    );
    assert_eq!(
        toggle_menu(&hidden, 1_000 + REOPEN_DEBOUNCE_MS),
        MenuToggle::Open
    );
    assert_eq!(toggle_menu(&Some(open(&[])), 5), MenuToggle::Hide);
}

#[test]
fn a_reopened_menu_starts_over() {
    let mut m = open(&["Alpha", "Beta"]);
    m.on_menu_char('a' as u32);
    m.hide_menu(7);
    assert!(m.open_menu(true, apps(&["Zeta"]), 540, 780, 144));
    assert!(m.state.filter.is_empty() && m.visible);
    assert_eq!((m.dpi, m.content.len(), m.dismissed_at), (144, 8, 7));
    assert_eq!(
        m.launch_from_menu(Some(5)),
        MenuTodo::Run(ActionKind::RunTests)
    );
    assert_eq!(m.launch_from_menu(Some(7)), launch(r"C:\Zeta.lnk"));
    assert_eq!(m.launch_from_menu(Some(6)), MenuTodo::Nothing);
    assert_eq!(m.launch_from_menu(Some(8)), MenuTodo::Nothing);
}

#[test]
fn menu_messages_are_sorted() {
    assert_eq!(menu_wndproc(WM_ACTIVATE, 0x1_0000, 0), MenuEvent::Dismiss);
    assert_eq!(menu_wndproc(WM_ACTIVATE, 1, 0), MenuEvent::Other);
    assert_eq!(menu_wndproc(WM_KEYDOWN, 0x1b, 0), MenuEvent::Key(VK_ESCAPE));
    assert_eq!(menu_wndproc(WM_CHAR, 97, 0), MenuEvent::Typed(97));
    assert_eq!(
        menu_wndproc(WM_LBUTTONDOWN, 0, 0x0002_0001),
        MenuEvent::Click(1, 2)
    );
    assert_eq!(
        menu_wndproc(WM_MOUSEMOVE, 0, 0x0002_ffff),
        MenuEvent::MouseMove(-1, 2)
    );
    assert_eq!(menu_wndproc(WM_MOUSELEAVE, 0, 0), MenuEvent::MouseLeave);
    assert_eq!(
        menu_wndproc(WM_MOUSEWHEEL, 0x0078_0000, 0),
        MenuEvent::Wheel(120)
    );
    assert_eq!(menu_wndproc(WM_DESTROY, 0, 0), MenuEvent::Destroyed);
    assert_eq!(menu_wndproc(0x0400, 0, 0), MenuEvent::Other);
}
