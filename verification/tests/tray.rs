//! The notification-area protocol.
use winrestyle::taskbar::tray::{
    apply, callback_params, parse, Applied, IconData, TrayCommand, TrayIcon, NIF_ICON,
    NIF_MESSAGE, NIF_STATE, NIF_TIP, NIM_ADD, NIM_DELETE, NIM_MODIFY, NIM_SETFOCUS,
    NIM_SETVERSION, NIS_HIDDEN, VERSION_4,
};

/// What a turned-down command is answered.
const REJECTED: Applied = Applied {
    handled: false,
    repaint: false,
};

/// Build a wire buffer: 8-byte header + a `long_form` NOTIFYICONDATA32.
fn wire(op: u32, owner: u32, uid: u32, flags: u32, callback: u32, hicon: u32) -> Vec<u8> {
    let mut b = vec![0u8; 8 + 956];
    b[0..4].copy_from_slice(&0x34753423u32.to_le_bytes()); // magic (unchecked)
    b[4..8].copy_from_slice(&op.to_le_bytes());
    let nid = &mut b[8..];
    nid[0..4].copy_from_slice(&956u32.to_le_bytes()); // cbSize
    nid[4..8].copy_from_slice(&owner.to_le_bytes());
    nid[8..12].copy_from_slice(&uid.to_le_bytes());
    nid[12..16].copy_from_slice(&flags.to_le_bytes());
    nid[16..20].copy_from_slice(&callback.to_le_bytes());
    nid[20..24].copy_from_slice(&hicon.to_le_bytes());
    b
}

fn set_tip(b: &mut [u8], tip: &str) {
    for (i, u) in tip.encode_utf16().enumerate() {
        b[8 + 24 + i * 2..8 + 24 + i * 2 + 2].copy_from_slice(&u.to_le_bytes());
    }
}

#[test]
fn parses_a_modern_add() {
    let mut b = wire(
        NIM_ADD,
        0x1234,
        7,
        NIF_MESSAGE | NIF_ICON | NIF_TIP,
        0x8001,
        0xbeef,
    );
    set_tip(&mut b, "My App");
    let cmd = parse(&b).unwrap();
    assert_eq!(cmd.op, NIM_ADD);
    assert_eq!(cmd.data.owner, 0x1234);
    assert_eq!(cmd.data.uid, 7);
    assert_eq!(cmd.data.callback, 0x8001);
    assert_eq!(cmd.data.hicon, 0xbeef);
    assert_eq!(cmd.data.tip, "My App");
}

#[test]
fn wire_handles_sign_extend() {
    // A 32-bit handle with the high bit set must sign-extend, matching
    // how the kernel widens user handles.
    let b = wire(NIM_ADD, 0xfffe_1234, 1, NIF_MESSAGE, 0x8001, 0x8000_0001);
    let d = parse(&b).unwrap().data;
    assert_eq!(d.owner, 0xfffe_1234u32 as i32 as isize);
    assert_eq!(d.hicon, 0x8000_0001u32 as i32 as isize);
}

#[test]
fn parses_the_ancient_short_form() {
    // V1 (Win9x-era): 152-byte struct, 64-wchar tip, nothing after it.
    let mut b = vec![0u8; 8 + 152];
    b[4..8].copy_from_slice(&NIM_ADD.to_le_bytes());
    let nid = &mut b[8..];
    nid[0..4].copy_from_slice(&152u32.to_le_bytes());
    nid[4..8].copy_from_slice(&42u32.to_le_bytes());
    nid[12..16].copy_from_slice(&NIF_TIP.to_le_bytes());
    for (i, u) in "old".encode_utf16().enumerate() {
        nid[24 + i * 2..24 + i * 2 + 2].copy_from_slice(&u.to_le_bytes());
    }
    let cmd = parse(&b).unwrap();
    assert_eq!(cmd.data.owner, 42);
    assert_eq!(cmd.data.tip, "old");
    assert_eq!(cmd.data.state, 0);
}

#[test]
fn hostile_buffers_never_panic() {
    for len in 0..30 {
        let _ = parse(&vec![0xa5u8; len]);
    }
    assert!(parse(&[]).is_none());
    assert!(parse(&[0; 8]).is_none()); // header but no struct
                                       // An unterminated max-length tip stops at the field edge.
    let mut b = wire(NIM_ADD, 1, 1, NIF_TIP, 0, 0);
    for i in 0..128 {
        b[8 + 24 + i * 2..8 + 24 + i * 2 + 2].copy_from_slice(&('x' as u16).to_le_bytes());
    }
    assert_eq!(parse(&b).unwrap().data.tip.len(), 128);
}

fn add(icons: &mut Vec<TrayIcon>, owner: isize, uid: u32, hicon: isize) -> Applied {
    apply(
        icons,
        &TrayCommand {
            op: NIM_ADD,
            data: IconData {
                owner,
                uid,
                flags: NIF_MESSAGE | NIF_ICON,
                callback: 0x8001,
                hicon,
                tip: String::new(),
                state: 0,
                state_mask: 0,
                version: 0,
            },
        },
    )
}

fn cmd(op: u32, owner: isize, uid: u32, flags: u32, hicon: isize) -> TrayCommand {
    TrayCommand {
        op,
        data: IconData {
            owner,
            uid,
            flags,
            callback: 0,
            hicon,
            tip: String::new(),
            state: 0,
            state_mask: 0,
            version: 0,
        },
    }
}

#[test]
fn registry_add_modify_delete() {
    let mut icons = Vec::new();
    assert!(add(&mut icons, 100, 1, 0xa).repaint);
    assert!(add(&mut icons, 100, 2, 0xb).handled);
    assert_eq!(icons.len(), 2);
    let rev = icons[0].rev;

    // Modify the icon image: rev bumps, repaint required.
    let r = apply(&mut icons, &cmd(NIM_MODIFY, 100, 1, NIF_ICON, 0xc));
    assert!(r.handled && r.repaint);
    assert_eq!(icons[0].hicon, 0xc);
    assert_eq!(icons[0].rev, rev + 1);
    // Callback stays: NIF_MESSAGE wasn't set.
    assert_eq!(icons[0].callback, 0x8001);

    // Modify of an unknown icon fails without inventing one.
    assert_eq!(
        apply(&mut icons, &cmd(NIM_MODIFY, 999, 9, NIF_ICON, 1)),
        REJECTED
    );
    assert_eq!(icons.len(), 2);

    let r = apply(&mut icons, &cmd(NIM_DELETE, 100, 1, 0, 0));
    assert!(r.handled && r.repaint);
    assert_eq!(icons.len(), 1);
    assert_eq!(icons[0].uid, 2);
    // Deleting again is a no-op failure, not a panic.
    assert_eq!(apply(&mut icons, &cmd(NIM_DELETE, 100, 1, 0, 0)), REJECTED);
}

#[test]
fn re_add_upserts_and_hidden_state_tracks_the_mask() {
    let mut icons = Vec::new();
    add(&mut icons, 100, 1, 0xa);
    // Re-add with the same key updates in place instead of duplicating,
    // and reports success to the sender even though nothing changed.
    let r = add(&mut icons, 100, 1, 0xa);
    assert!(r.handled && !r.repaint);
    assert_eq!(icons.len(), 1);

    let hide = TrayCommand {
        op: NIM_MODIFY,
        data: IconData {
            owner: 100,
            uid: 1,
            flags: NIF_STATE,
            callback: 0,
            hicon: 0,
            tip: String::new(),
            state: NIS_HIDDEN,
            state_mask: NIS_HIDDEN,
            version: 0,
        },
    };
    let r = apply(&mut icons, &hide);
    assert!(r.handled && r.repaint);
    assert!(icons[0].hidden);
    // A state write whose mask doesn't cover NIS_HIDDEN leaves it alone:
    // handled, but nothing to repaint.
    let unrelated = TrayCommand {
        op: NIM_MODIFY,
        data: IconData {
            state: 0,
            state_mask: 0x2, // NIS_SHAREDICON
            ..hide.data.clone()
        },
    };
    let r = apply(&mut icons, &unrelated);
    assert!(r.handled && !r.repaint);
    assert!(icons[0].hidden);
}

#[test]
fn tip_only_modify_is_handled_without_repaint() {
    let mut icons = Vec::new();
    add(&mut icons, 100, 1, 0xa);
    let mut c = cmd(NIM_MODIFY, 100, 1, NIF_TIP, 0);
    c.data.tip = "Battery: 73%".into();
    let r = apply(&mut icons, &c);
    assert!(r.handled && !r.repaint);
    assert_eq!(icons[0].tip, "Battery: 73%");
}

#[test]
fn setfocus_and_unknown_ops_change_nothing() {
    let mut icons = Vec::new();
    add(&mut icons, 100, 1, 0xa);
    let before = icons.clone();
    // SETFOCUS on a live icon is acknowledged but is a visual no-op.
    let r = apply(&mut icons, &cmd(NIM_SETFOCUS, 100, 1, NIF_ICON, 0xff));
    assert!(r.handled && !r.repaint);
    // Unknown ops are rejected outright.
    assert_eq!(
        apply(&mut icons, &cmd(99, 100, 1, NIF_ICON, 0xff)),
        REJECTED
    );
    assert_eq!(icons, before);
}

#[test]
fn setversion_switches_callback_encoding() {
    let mut icons = Vec::new();
    add(&mut icons, 100, 7, 0xa);
    // Legacy: wparam = uid, lparam = message.
    let (w, l) = callback_params(&icons[0], 0x0201, 50, 60);
    assert_eq!((w, l), (7, 0x0201));

    // The version switch must be REPORTED as success (the app decides
    // its own encoding based on this answer) while needing no repaint.
    let r = apply(
        &mut icons,
        &TrayCommand {
            op: NIM_SETVERSION,
            data: IconData {
                owner: 100,
                uid: 7,
                flags: 0,
                callback: 0,
                hicon: 0,
                tip: String::new(),
                state: 0,
                state_mask: 0,
                version: VERSION_4,
            },
        },
    );
    assert!(r.handled && !r.repaint);
    // ...but a SETVERSION for an unknown icon is rejected, so the app
    // never ends up on an encoding the host didn't record.
    let mut unknown = cmd(NIM_SETVERSION, 999, 1, 0, 0);
    unknown.data.version = VERSION_4;
    assert_eq!(apply(&mut icons, &unknown), REJECTED);
    assert_eq!(icons[0].version, VERSION_4);
    // V4: coords in wparam; event + uid packed in lparam.
    let (w, l) = callback_params(&icons[0], 0x0201, 50, 60);
    assert_eq!(w, 50 | (60 << 16));
    assert_eq!(l, (0x0201 | (7 << 16)) as isize);
}
