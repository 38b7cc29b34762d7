//! The hosted notification icons.
use winrestyle::taskbar::tasks::Icon;
use winrestyle::taskbar::tray::{
    IconData, TrayCommand, NIF_ICON, NIF_MESSAGE, NIF_STATE, NIM_ADD, NIM_DELETE, NIM_MODIFY,
    NIM_SETFOCUS, NIM_SETVERSION, NIN_SELECT, NIS_HIDDEN, VERSION_4, WM_CONTEXTMENU,
};
use winrestyle::taskbar::tray_host::{
    contains_handle, tray_payload, visible_icon, visible_tray, Repaint, TrayHost, TrayReply,
    WM_LBUTTONDOWN, WM_LBUTTONUP, WM_RBUTTONUP,
};

fn command(op: u32, owner: isize, flags: u32) -> TrayCommand {
    TrayCommand {
        op,
        data: IconData {
            owner,
            uid: 1,
            flags,
            callback: 0x8001,
            hicon: 77,
            tip: String::new(),
            state: 0,
            state_mask: 0,
            version: 0,
        },
    }
}

fn icon() -> Icon {
    Icon {
        width: 1,
        height: 1,
        bgra: vec![1, 2, 3, 4],
    }
}

fn reply(handled: bool, repaint: Repaint) -> TrayReply {
    TrayReply { handled, repaint }
}

fn add(host: &mut TrayHost, owner: isize) {
    let cmd = command(NIM_ADD, owner, NIF_ICON | NIF_MESSAGE);
    assert!(host.icon_changed(&cmd));
    assert_eq!(
        host.on_tray_copydata(&cmd, Some(icon())),
        reply(true, Repaint::Relayout)
    );
}

#[test]
fn icons_come_and_go_with_their_pixels() {
    let mut host = TrayHost::new(true);
    add(&mut host, 5);
    assert_eq!(host.pixels.len(), 1);
    // The same image again is not decoded again.
    let again = command(NIM_MODIFY, 5, NIF_ICON);
    assert!(!host.icon_changed(&again));
    assert_eq!(
        host.on_tray_copydata(&again, None),
        reply(true, Repaint::Nothing)
    );
    assert_eq!(host.pixels[0].icon, Some(icon()));
    assert_eq!(
        host.on_tray_copydata(&command(NIM_DELETE, 5, 0), None),
        reply(true, Repaint::Relayout)
    );
    assert!(host.icons.is_empty() && host.pixels.is_empty());
}

#[test]
fn a_new_image_replaces_the_pixels() {
    let mut host = TrayHost::new(true);
    add(&mut host, 5);
    let mut cmd = command(NIM_MODIFY, 5, NIF_ICON);
    cmd.data.hicon = 78;
    assert!(host.icon_changed(&cmd));
    assert_eq!(
        host.on_tray_copydata(&cmd, None),
        reply(true, Repaint::Redraw)
    );
    assert_eq!(host.pixels.len(), 1);
    assert_eq!(host.pixels[0].icon, None);
}

#[test]
fn turned_down_commands_change_nothing() {
    let mut host = TrayHost::new(true);
    add(&mut host, 5);
    for op in [NIM_MODIFY, NIM_SETVERSION, NIM_SETFOCUS, 99] {
        assert_eq!(
            host.on_tray_copydata(&command(op, 6, NIF_ICON), Some(icon())),
            reply(false, Repaint::Nothing)
        );
    }
    assert_eq!(
        host.on_tray_copydata(&command(NIM_DELETE, 6, 0), None),
        reply(false, Repaint::Nothing)
    );
    assert_eq!((host.icons.len(), host.pixels.len()), (1, 1));
    assert_eq!(host.pixels[0].icon, Some(icon()));
}

#[test]
fn hidden_icons_take_no_place() {
    let mut host = TrayHost::new(true);
    add(&mut host, 5);
    add(&mut host, 6);
    let mut hide = command(NIM_MODIFY, 5, NIF_STATE);
    hide.data.state = NIS_HIDDEN;
    hide.data.state_mask = NIS_HIDDEN;
    assert_eq!(
        host.on_tray_copydata(&hide, None),
        reply(true, Repaint::Relayout)
    );
    assert_eq!(visible_tray(&host.icons), 1);
    assert_eq!(visible_icon(&host.icons, 0), Some(1));
    assert_eq!(visible_icon(&host.icons, 1), None);
    assert_eq!(
        host.forward_tray_mouse(0, WM_LBUTTONDOWN, 1, 2).unwrap().owner,
        6
    );
}

#[test]
fn clicks_go_back_in_the_owners_encoding() {
    let mut host = TrayHost::new(true);
    add(&mut host, 5);
    let post = host.forward_tray_mouse(0, WM_LBUTTONUP, 10, 20).unwrap();
    assert_eq!((post.owner, post.callback), (5, 0x8001));
    assert_eq!(post.params, vec![(1, WM_LBUTTONUP as isize)]);
    let mut version = command(NIM_SETVERSION, 5, 0);
    version.data.version = VERSION_4;
    assert!(host.on_tray_copydata(&version, None).handled);
    let post = host.forward_tray_mouse(0, WM_LBUTTONUP, 10, 20).unwrap();
    let packed = |msg: u32| ((20 << 16) | 10, (1isize << 16) | msg as isize);
    assert_eq!(post.params, vec![packed(WM_LBUTTONUP), packed(NIN_SELECT)]);
    let post = host.forward_tray_mouse(0, WM_RBUTTONUP, 10, 20).unwrap();
    assert_eq!(
        post.params,
        vec![packed(WM_RBUTTONUP), packed(WM_CONTEXTMENU)]
    );
    assert_eq!(host.forward_tray_mouse(1, WM_LBUTTONUP, 0, 0), None);
    host.icons[0].callback = 0;
    assert_eq!(host.forward_tray_mouse(0, WM_LBUTTONUP, 0, 0), None);
}

#[test]
fn the_dead_are_pruned_and_nobody_else() {
    let mut host = TrayHost::new(true);
    for owner in [5, 6, 7] {
        add(&mut host, owner);
    }
    assert_eq!(host.owners(), vec![5, 6, 7]);
    host.prune(&vec![6, 99]);
    assert_eq!(host.owners(), vec![5, 7]);
    let left: Vec<isize> = host.pixels.iter().map(|p| p.owner).collect();
    assert_eq!(left, vec![5, 7]);
    host.hosting = false;
    assert!(host.owners().is_empty());
    assert!(contains_handle(&vec![1, 2], 2) && !contains_handle(&vec![1, 2], 3));
}

#[test]
fn only_icon_registrations_are_read() {
    let mut bytes = vec![0u8; 8 + 152];
    bytes[8..12].copy_from_slice(&152u32.to_le_bytes());
    bytes[12..16].copy_from_slice(&42u32.to_le_bytes());
    assert_eq!(tray_payload(1, Some(&bytes)).unwrap().data.owner, 42);
    assert!(tray_payload(0, Some(&bytes)).is_none());
    assert!(tray_payload(1, None).is_none());
    assert!(tray_payload(1, Some(&bytes[..20])).is_none());
}
