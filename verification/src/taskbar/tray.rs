//! The notification-area host protocol, data side: the payloads applications
//! send to the tray window, and the registry of icons they add up to.
//!
//! A payload is an 8-byte header (magic, message) followed by an icon record
//! laid out for 32 bits: every handle field is 4 bytes on the wire, and handles
//! are sign-extended back to pointer width (they fit in 32 bits by kernel
//! contract).
use vstd::prelude::*;

use crate::text;

verus! {

/// Icon messages (`dwMessage` on the wire).
pub const NIM_ADD: u32 = 0;
pub const NIM_MODIFY: u32 = 1;
pub const NIM_DELETE: u32 = 2;
pub const NIM_SETFOCUS: u32 = 3;
pub const NIM_SETVERSION: u32 = 4;

/// Flag bits: which fields of the record are valid.
pub const NIF_MESSAGE: u32 = 0x1;
pub const NIF_ICON: u32 = 0x2;
pub const NIF_TIP: u32 = 0x4;
pub const NIF_STATE: u32 = 0x8;

/// State bit: the icon is registered but not shown.
pub const NIS_HIDDEN: u32 = 0x1;

/// Protocol version 4: coordinates-in-wparam callback encoding.
pub const VERSION_4: u32 = 4;

/// The version 4 "icon activated" callback event the host sends alongside the
/// raw left-button-up.
pub const NIN_SELECT: u32 = 0x0400;
/// Version 4 owners key their menus off this callback event, sent by the host
/// alongside the raw right-button-up.
pub const WM_CONTEXTMENU: u32 = 0x007B;

/// One icon record as parsed off the wire. Only the fields flagged valid by
/// `flags` are meaningful.
#[derive(Debug, Clone, PartialEq, Eq)]
pub struct IconData {
    /// The owner window (sign-extended from the 32-bit wire field).
    pub owner: isize,
    pub uid: u32,
    pub flags: u32,
    pub callback: u32,
    /// Raw icon handle (sign-extended); 0 when the sender passed none.
    pub hicon: isize,
    /// Tooltip text (`NIF_TIP`).
    pub tip: String,
    /// State and state mask (`NIF_STATE`).
    pub state: u32,
    pub state_mask: u32,
    /// The timeout/version union, meaningful for `NIM_SETVERSION`.
    pub version: u32,
}

/// A parsed tray command: which `NIM_*` operation, on which icon data.
#[derive(Debug, Clone, PartialEq, Eq)]
pub struct TrayCommand {
    pub op: u32,
    pub data: IconData,
}

/// The little-endian 16-bit number at `off`.
pub open spec fn le16(buf: Seq<u8>, off: int) -> int {
    buf[off] + buf[off + 1] * 0x100
}

/// The little-endian 32-bit number at `off`.
pub open spec fn le32(buf: Seq<u8>, off: int) -> int {
    buf[off] + buf[off + 1] * 0x100 + buf[off + 2] * 0x1_0000 + buf[off + 3] * 0x100_0000
}

/// A 32-bit number read as a signed one.
pub open spec fn sign_extended(v: int) -> int {
    if v < 0x8000_0000 {
        v
    } else {
        v - 0x1_0000_0000
    }
}

/// The 16-bit units of a text field at `off`: up to a zero unit, the end of
/// the field of `wchars` units, or the end of the buffer.
pub open spec fn field_units(buf: Seq<u8>, off: int, wchars: int) -> Seq<u16>
    decreases wchars,
{
    if wchars <= 0 || off < 0 || off + 2 > buf.len() || le16(buf, off) == 0 {
        Seq::empty()
    } else {
        seq![le16(buf, off) as u16] + field_units(buf, off + 2, wchars - 1)
    }
}

/// Offset of the icon record in a payload.
pub const RECORD: usize = 8;
/// Length of the fixed head of the record, through the icon handle.
pub const RECORD_HEAD: usize = 24;
/// Length from which a record has the long tip and the state fields.
pub const LONG_RECORD: usize = 288;
/// Offset of the version field in a record.
pub const VERSION_FIELD: usize = 800;

/// Whether a payload holds a record at all.
pub open spec fn is_tray_payload(buf: Seq<u8>) -> bool {
    buf.len() >= RECORD + RECORD_HEAD
}

/// Whether a payload's record has the long form.
pub open spec fn is_long_form(buf: Seq<u8>) -> bool {
    buf.len() >= RECORD + LONG_RECORD
}

/// Whether `cmd` is what the payload says.
pub open spec fn is_command_of(cmd: TrayCommand, buf: Seq<u8>) -> bool {
    let d = cmd.data;
    &&& cmd.op == le32(buf, 4)
    &&& d.owner == sign_extended(le32(buf, RECORD + 4))
    &&& d.uid == le32(buf, RECORD + 8)
    &&& d.flags == le32(buf, RECORD + 12)
    &&& d.callback == le32(buf, RECORD + 16)
    &&& d.hicon == sign_extended(le32(buf, RECORD + 20))
    &&& d.tip@ == text::utf16_text(
        field_units(
            buf,
            RECORD + 24,
            if is_long_form(buf) {
                128
            } else {
                64
            },
        ),
    )
    &&& d.state == if is_long_form(buf) {
        le32(buf, RECORD + 280)
    } else {
        0
    }
    &&& d.state_mask == if is_long_form(buf) {
        le32(buf, RECORD + 284)
    } else {
        0
    }
    &&& d.version == if buf.len() >= RECORD + VERSION_FIELD + 4 {
        le32(buf, RECORD + VERSION_FIELD)
    } else {
        0
    }
}

/// The 32-bit number at `off`, or `None` past the end of the buffer.
fn u32_at(buf: &[u8], off: usize) -> (r: Option<u32>)
    requires
        off + 4 <= usize::MAX,
    ensures
        r is Some <==> off + 4 <= buf@.len(),
        r matches Some(v) ==> v == le32(buf@, off as int),
{
    if off + 4 > buf.len() {
        return None;
    }
    Some(
        buf[off] as u32 + buf[off + 1] as u32 * 0x100 + buf[off + 2] as u32 * 0x1_0000 + buf[off
            + 3] as u32 * 0x100_0000,
    )
}

/// Sign-extend a 32-bit value to pointer width.
fn sign_extend(v: u32) -> (r: isize)
    ensures
        r == sign_extended(v as int),
{
    if v < 0x8000_0000 {
        v as isize
    } else {
        (v as i64 - 0x1_0000_0000) as isize
    }
}

/// Sign-extend the 32-bit wire handle at `off` to pointer width.
fn handle_at(buf: &[u8], off: usize) -> (r: Option<isize>)
    requires
        off + 4 <= usize::MAX,
    ensures
        r is Some <==> off + 4 <= buf@.len(),
        r matches Some(v) ==> v == sign_extended(le32(buf@, off as int)),
{
    match u32_at(buf, off) {
        Some(v) => Some(sign_extend(v)),
        None => None,
    }
}

/// UTF-16 string at `off`, at most `wchars` units, NUL-terminated.
fn string_at(buf: &[u8], off: usize, wchars: usize) -> (r: String)
    requires
        off + 2 * wchars + 2 <= usize::MAX,
    ensures
        r@ == text::utf16_text(field_units(buf@, off as int, wchars as int)),
{
    let mut units: Vec<u16> = Vec::with_capacity(wchars);
    let mut i: usize = 0;
    let mut more: bool = true;
    while more
        invariant
            i <= wchars,
            off + 2 * wchars + 2 <= usize::MAX,
            more ==> units@ + field_units(buf@, off + 2 * i, wchars - i) == field_units(
                buf@,
                off as int,
                wchars as int,
            ),
            !more ==> units@ == field_units(buf@, off as int, wchars as int),
        decreases
                if more {
                    wchars - i + 1
                } else {
                    0
                },
    {
        let at: usize = off + 2 * i;
        if i == wchars || at + 2 > buf.len() {
            more = false;
        } else {
            let unit: u16 = buf[at] as u16 + buf[at + 1] as u16 * 0x100;
            if unit == 0 {
                more = false;
            } else {
                proof {
                    let tail = field_units(buf@, off + 2 * (i + 1), wchars - (i + 1));
                    assert(units@ + (seq![unit] + tail) =~= units@.push(unit) + tail);
                }
                units.push(unit);
                i = i + 1;
            }
        }
        proof {
            if !more {
                assert(units@ + Seq::<u16>::empty() =~= units@);
            }
        }
    }
    text::utf16_lossy(&units)
}

/// Parse one tray payload. `None` for buffers too short to carry the fixed
/// head; whatever a sender ships, a longer one parses.
pub fn parse(buf: &[u8]) -> (r: Option<TrayCommand>)
    ensures
        r is Some <==> is_tray_payload(buf@),
        r matches Some(cmd) ==> is_command_of(cmd, buf@),
{
    if buf.len() < RECORD + RECORD_HEAD {
        return None;
    }
    // The magic in front is unchecked: senders vary.
    let op: u32 = u32_at(buf, 4)?;
    // The oldest form of the record ends after a 64-unit tip; everything newer
    // has a 128-unit tip and the state and version fields. Trust the buffer
    // length, not the size field: senders lie about the size more often than
    // about the length.
    let long_form: bool = buf.len() >= RECORD + LONG_RECORD;
    let tip_wchars: usize = if long_form {
        128
    } else {
        64
    };
    let state: u32 = match u32_at(buf, RECORD + 280) {
        Some(v) => if long_form {
            v
        } else {
            0
        },
        None => 0,
    };
    let state_mask: u32 = match u32_at(buf, RECORD + 284) {
        Some(v) => if long_form {
            v
        } else {
            0
        },
        None => 0,
    };
    let version: u32 = match u32_at(buf, RECORD + VERSION_FIELD) {
        Some(v) => v,
        None => 0,
    };
    Some(
        TrayCommand {
            op,
            data: IconData {
                owner: handle_at(buf, RECORD + 4)?,
                uid: u32_at(buf, RECORD + 8)?,
                flags: u32_at(buf, RECORD + 12)?,
                callback: u32_at(buf, RECORD + 16)?,
                hicon: handle_at(buf, RECORD + 20)?,
                tip: string_at(buf, RECORD + 24, tip_wchars),
                state,
                state_mask,
                version,
            },
        },
    )
}

/// One live tray icon in the registry.
#[derive(Debug, Clone, PartialEq, Eq)]
pub struct TrayIcon {
    pub owner: isize,
    pub uid: u32,
    pub callback: u32,
    /// Protocol version the owner negotiated (`NIM_SETVERSION`); 0 = legacy.
    pub version: u32,
    pub hidden: bool,
    pub tip: String,
    /// Latest raw icon handle the owner supplied (0 = none yet).
    pub hicon: isize,
    /// Bumped whenever `hicon` changes, so icon-pixel caches know to refresh.
    pub rev: u32,
}

/// Outcome of applying one command to the registry. `handled` is the answer
/// the host returns to the sending app, success even when nothing visibly
/// changed. `repaint` is what the host must do: something a viewer could see
/// changed (set membership, icon image, visibility). Tooltip and version
/// updates are handled but need no repaint (tips are not rendered yet).
#[derive(Debug, Clone, Copy, PartialEq, Eq, Structural)]
pub struct Applied {
    pub handled: bool,
    pub repaint: bool,
}

impl Applied {
    /// The outcome of a command that failed and changed nothing.
    pub open spec fn is_rejected(self) -> bool {
        !self.handled && !self.repaint
    }
}

/// Whether an icon is the one with that owner and id.
pub open spec fn has_key(icon: TrayIcon, owner: isize, uid: u32) -> bool {
    icon.owner == owner && icon.uid == uid
}

/// The position of the first icon with that owner and id.
pub open spec fn icon_index(icons: Seq<TrayIcon>, owner: isize, uid: u32) -> Option<int>
    decreases icons.len(),
{
    if icons.len() == 0 {
        None
    } else {
        match icon_index(icons.drop_last(), owner, uid) {
            Some(i) => Some(i),
            None => if has_key(icons.last(), owner, uid) {
                Some(icons.len() - 1)
            } else {
                None
            },
        }
    }
}

/// Whether no two icons share owner and id.
pub open spec fn distinct_icons(icons: Seq<TrayIcon>) -> bool {
    forall|i: int, j: int|
        0 <= i < j < icons.len() ==> !has_key(
            #[trigger] icons[i],
            (#[trigger] icons[j]).owner,
            icons[j].uid,
        )
}

/// A freshly added icon, before its record is taken over.
pub open spec fn is_blank(icon: TrayIcon, owner: isize, uid: u32) -> bool {
    &&& has_key(icon, owner, uid)
    &&& icon.callback == 0
    &&& icon.version == 0
    &&& !icon.hidden
    &&& icon.tip@ == Seq::<char>::empty()
    &&& icon.hicon == 0
    &&& icon.rev == 0
}

/// Whether a record replaces the icon image.
pub open spec fn changes_image(icon: TrayIcon, d: IconData) -> bool {
    d.flags & NIF_ICON != 0 && icon.hicon != d.hicon
}

/// Whether a record says anything of visibility.
pub open spec fn speaks_of_hidden(d: IconData) -> bool {
    d.flags & NIF_STATE != 0 && d.state_mask & NIS_HIDDEN != 0
}

/// The visibility a record asks for.
pub open spec fn wants_hidden(d: IconData) -> bool {
    d.state & d.state_mask & NIS_HIDDEN != 0
}

/// Whether `after` is `before` with the valid fields of the record taken over.
pub open spec fn takes_over(before: TrayIcon, after: TrayIcon, d: IconData) -> bool {
    &&& after.owner == before.owner
    &&& after.uid == before.uid
    &&& after.version == before.version
    &&& after.callback == if d.flags & NIF_MESSAGE != 0 {
        d.callback
    } else {
        before.callback
    }
    &&& after.hicon == if changes_image(before, d) {
        d.hicon
    } else {
        before.hicon
    }
    &&& after.rev == if changes_image(before, d) {
        before.rev.wrapping_add(1)
    } else {
        before.rev
    }
    &&& after.tip@ == if d.flags & NIF_TIP != 0 {
        d.tip@
    } else {
        before.tip@
    }
    &&& after.hidden == if speaks_of_hidden(d) {
        wants_hidden(d)
    } else {
        before.hidden
    }
}

/// `icon_index` is the first position with that key, if there is one.
pub proof fn lemma_icon_index(icons: Seq<TrayIcon>, owner: isize, uid: u32)
    ensures
        match icon_index(icons, owner, uid) {
            Some(i) => {
                &&& 0 <= i < icons.len()
                &&& has_key(icons[i], owner, uid)
                &&& forall|j: int| 0 <= j < i ==> !has_key(#[trigger] icons[j], owner, uid)
            },
            None => forall|j: int|
                0 <= j < icons.len() ==> !has_key(#[trigger] icons[j], owner, uid),
        },
    decreases icons.len(),
{
    if icons.len() > 0 {
        let init = icons.drop_last();
        lemma_icon_index(init, owner, uid);
        assert forall|j: int| 0 <= j < icons.len() - 1 implies #[trigger] icons[j] == init[j] by {}
    }
}

/// What a command does to the registry, and its outcome.
pub open spec fn applies(
    before: Seq<TrayIcon>,
    after: Seq<TrayIcon>,
    cmd: TrayCommand,
    r: Applied,
) -> bool {
    let d = cmd.data;
    let pos = icon_index(before, d.owner, d.uid);
    if cmd.op == NIM_ADD && pos is None {
        // A new icon goes to the end.
        &&& r.handled
        &&& r.repaint
        &&& after.len() == before.len() + 1
        &&& after.drop_last() == before
        &&& exists|blank: TrayIcon|
            is_blank(blank, d.owner, d.uid) && #[trigger] takes_over(blank, after.last(), d)
    } else if (cmd.op == NIM_ADD || cmd.op == NIM_MODIFY) && pos is Some {
        // An icon that is there is updated in place.
        let p = pos->0;
        &&& r.handled
        &&& r.repaint <==> changes_image(before[p], d) || (speaks_of_hidden(d) && before[p].hidden
            != wants_hidden(d))
        &&& after.len() == before.len()
        &&& after == before.update(p, after[p])
        &&& takes_over(before[p], after[p], d)
    } else if cmd.op == NIM_DELETE && pos is Some {
        &&& r.handled
        &&& r.repaint
        &&& after == before.remove(pos->0)
    } else if cmd.op == NIM_SETVERSION && pos is Some {
        let p = pos->0;
        &&& r.handled
        &&& !r.repaint
        &&& after == before.update(p, TrayIcon { version: d.version, ..before[p] })
    } else if cmd.op == NIM_SETFOCUS && pos is Some {
        // Acknowledged, but meaningless without keyboard tray navigation.
        &&& r.handled
        &&& !r.repaint
        &&& after == before
    } else {
        &&& r.is_rejected()
        &&& after == before
    }
}

/// The position of the icon with that owner and id.
pub fn find_icon(icons: &Vec<TrayIcon>, owner: isize, uid: u32) -> (r: Option<usize>)
    ensures
        match r {
            Some(p) => icon_index(icons@, owner, uid) == Some(p as int),
            None => icon_index(icons@, owner, uid) is None,
        },
        r matches Some(p) ==> p < icons@.len(),
{
    let mut i: usize = 0;
    proof {
        lemma_icon_index(icons@, owner, uid);
    }
    while i < icons.len()
        invariant
            i <= icons@.len(),
            forall|j: int| 0 <= j < i ==> !has_key(#[trigger] icons@[j], owner, uid),
        decreases icons@.len() - i,
    {
        if icons[i].owner == owner && icons[i].uid == uid {
            proof {
                lemma_icon_index(icons@, owner, uid);
                assert(has_key(icons@[i as int], owner, uid));
            }
            return Some(i);
        }
        i = i + 1;
    }
    proof {
        lemma_icon_index(icons@, owner, uid);
    }
    None
}

/// Take the valid fields of a record over into an icon. Returns whether a
/// viewer could see the difference.
fn take_over(icon: &mut TrayIcon, d: &IconData) -> (repaint: bool)
    ensures
        takes_over(*old(icon), *final(icon), *d),
        repaint <==> changes_image(*old(icon), *d) || (speaks_of_hidden(*d) && old(icon).hidden
            != wants_hidden(*d)),
{
    let mut repaint: bool = false;
    if d.flags & NIF_MESSAGE != 0 {
        icon.callback = d.callback;
    }
    if d.flags & NIF_ICON != 0 && icon.hicon != d.hicon {
        icon.hicon = d.hicon;
        icon.rev = icon.rev.wrapping_add(1);
        repaint = true;
    }
    if d.flags & NIF_TIP != 0 {
        icon.tip = d.tip.clone();
    }
    if d.flags & NIF_STATE != 0 {
        let hidden: bool = (d.state & d.state_mask & NIS_HIDDEN) != 0;
        let mask_hits: bool = d.state_mask & NIS_HIDDEN != 0;
        if mask_hits && icon.hidden != hidden {
            icon.hidden = hidden;
            repaint = true;
        }
    }
    repaint
}

/// Apply a parsed command to the registry. `NIM_ADD` upserts: stricter
/// hosts reject re-adds, but forgiving beats dropping a live app's icon.
pub fn apply(icons: &mut Vec<TrayIcon>, cmd: &TrayCommand) -> (r: Applied)
    ensures
        applies(old(icons)@, final(icons)@, *cmd, r),
{
    let pos = find_icon(icons, cmd.data.owner, cmd.data.uid);
    let op: u32 = cmd.op;
    match pos {
        None => {
            if op == NIM_ADD {
                let mut icon = TrayIcon {
                    owner: cmd.data.owner,
                    uid: cmd.data.uid,
                    callback: 0,
                    version: 0,
                    hidden: false,
                    tip: String::new(),
                    hicon: 0,
                    rev: 0,
                };
                let ghost blank = icon;
                let _ = take_over(&mut icon, &cmd.data);
                icons.push(icon);
                proof {
                    assert(icons@.drop_last() =~= old(icons)@);
                    assert(is_blank(blank, cmd.data.owner, cmd.data.uid));
                    assert(takes_over(blank, icons@.last(), cmd.data));
                }
                Applied { handled: true, repaint: true }
            } else {
                // Nothing to modify, delete or talk about.
                Applied { handled: false, repaint: false }
            }
        },
        Some(p) => {
            if op == NIM_ADD || op == NIM_MODIFY {
                let repaint: bool = take_over(&mut icons[p], &cmd.data);
                Applied { handled: true, repaint }
            } else if op == NIM_DELETE {
                let _ = icons.remove(p);
                Applied { handled: true, repaint: true }
            } else if op == NIM_SETVERSION {
                icons[p].version = cmd.data.version;
                Applied { handled: true, repaint: false }
            } else if op == NIM_SETFOCUS {
                Applied { handled: true, repaint: false }
            } else {
                Applied { handled: false, repaint: false }
            }
        },
    }
}

/// The low 16 bits of a number, in two's complement.
pub open spec fn low_word(v: int) -> int {
    v % 0x1_0000
}

/// The two numbers of a callback: the anchor and the event with the icon's id
/// for version 4 owners, the icon's id and the event for older ones.
pub open spec fn callback_numbers(icon: TrayIcon, msg: u32, x: int, y: int) -> (int, int) {
    if icon.version >= VERSION_4 {
        (
            low_word(x) + low_word(y) * 0x1_0000,
            sign_extended(low_word(msg as int) + low_word(icon.uid as int) * 0x1_0000),
        )
    } else {
        (icon.uid as int, (msg as isize) as int)
    }
}

/// `(wparam, lparam)` for forwarding a mouse event to an icon's owner, per
/// the version its owner negotiated. Legacy (< 4): wparam = uid, lparam =
/// the mouse message. Version 4: wparam = packed anchor coords, lparam =
/// low word event, high word uid.
pub fn callback_params(icon: &TrayIcon, msg: u32, x: i32, y: i32) -> (r: (usize, isize))
    ensures
        r.0 == callback_numbers(*icon, msg, x as int, y as int).0,
        r.1 == callback_numbers(*icon, msg, x as int, y as int).1,
{
    if icon.version >= VERSION_4 {
        let low_x: u32 = ((x as i64 + 0x1_0000_0000) % 0x1_0000) as u32;
        let low_y: u32 = ((y as i64 + 0x1_0000_0000) % 0x1_0000) as u32;
        let wparam: usize = (low_x + low_y * 0x1_0000) as usize;
        let lparam: isize = sign_extend(msg % 0x1_0000 + (icon.uid % 0x1_0000) * 0x1_0000);
        (wparam, lparam)
    } else {
        (icon.uid as usize, msg as isize)
    }
}

/// No command ever leaves two icons with the same owner and id.
pub proof fn law_icons_stay_distinct(
    before: Seq<TrayIcon>,
    after: Seq<TrayIcon>,
    cmd: TrayCommand,
    r: Applied,
)
    requires
        distinct_icons(before),
        applies(before, after, cmd, r),
    ensures
        distinct_icons(after),
{
    let d = cmd.data;
    lemma_icon_index(before, d.owner, d.uid);
    let pos = icon_index(before, d.owner, d.uid);
    if cmd.op == NIM_ADD && pos is None {
        assert forall|i: int, j: int| 0 <= i < j < after.len() implies !has_key(
            #[trigger] after[i],
            (#[trigger] after[j]).owner,
            after[j].uid,
        ) by {
            assert(after[i] == after.drop_last()[i]);
            if j < before.len() {
                assert(after[j] == after.drop_last()[j]);
            }
        }
    } else if cmd.op == NIM_DELETE && pos is Some {
        let p = pos->0;
        assert forall|i: int, j: int| 0 <= i < j < after.len() implies !has_key(
            #[trigger] after[i],
            (#[trigger] after[j]).owner,
            after[j].uid,
        ) by {
            let a = if i < p {
                i
            } else {
                i + 1
            };
            let b = if j < p {
                j
            } else {
                j + 1
            };
            assert(after[i] == before[a]);
            assert(after[j] == before[b]);
        }
    } else if pos is Some {
        let p = pos->0;
        assert forall|i: int, j: int| 0 <= i < j < after.len() implies !has_key(
            #[trigger] after[i],
            (#[trigger] after[j]).owner,
            after[j].uid,
        ) by {
            assert(before[i].owner == after[i].owner && before[i].uid == after[i].uid);
            assert(before[j].owner == after[j].owner && before[j].uid == after[j].uid);
            assert(!has_key(before[i], before[j].owner, before[j].uid));
        }
    }
}

/// A command that is not handled changes nothing and asks for no repaint.
pub proof fn law_rejected_commands_change_nothing(
    before: Seq<TrayIcon>,
    after: Seq<TrayIcon>,
    cmd: TrayCommand,
    r: Applied,
)
    requires
        applies(before, after, cmd, r),
        !r.handled,
    ensures
        after == before,
        r.is_rejected(),
{
}

/// Where no repaint is asked for, nothing a viewer could see changed: the same
/// icons in the same order, with the same image and visibility.
pub proof fn law_repaint_is_asked_for_what_shows(
    before: Seq<TrayIcon>,
    after: Seq<TrayIcon>,
    cmd: TrayCommand,
    r: Applied,
)
    requires
        applies(before, after, cmd, r),
        !r.repaint,
    ensures
        after.len() == before.len(),
        forall|i: int|
            #![trigger after[i]]
            0 <= i < after.len() ==> {
                &&& after[i].owner == before[i].owner
                &&& after[i].uid == before[i].uid
                &&& after[i].hicon == before[i].hicon
                &&& after[i].rev == before[i].rev
                &&& after[i].hidden == before[i].hidden
            },
{
    lemma_icon_index(before, cmd.data.owner, cmd.data.uid);
}

/// Adding an icon always succeeds, and it is in the registry afterwards.
pub proof fn law_added_icons_are_registered(
    before: Seq<TrayIcon>,
    after: Seq<TrayIcon>,
    cmd: TrayCommand,
    r: Applied,
)
    requires
        applies(before, after, cmd, r),
        cmd.op == NIM_ADD,
    ensures
        r.handled,
        icon_index(after, cmd.data.owner, cmd.data.uid) is Some,
{
    let d = cmd.data;
    lemma_icon_index(before, d.owner, d.uid);
    lemma_icon_index(after, d.owner, d.uid);
    match icon_index(before, d.owner, d.uid) {
        Some(p) => {
            assert(has_key(after[p], d.owner, d.uid));
        },
        None => {
            assert(has_key(after[after.len() - 1], d.owner, d.uid));
        },
    }
}

/// Only an icon that is registered can be modified, deleted, given a version
/// or given the focus.
pub proof fn law_unknown_icons_are_rejected(
    before: Seq<TrayIcon>,
    after: Seq<TrayIcon>,
    cmd: TrayCommand,
    r: Applied,
)
    requires
        applies(before, after, cmd, r),
        cmd.op != NIM_ADD,
        icon_index(before, cmd.data.owner, cmd.data.uid) is None,
    ensures
        r.is_rejected(),
        after == before,
{
}

/// A deleted icon is gone, so deleting it again fails.
pub proof fn law_deleted_icons_are_gone(
    before: Seq<TrayIcon>,
    after: Seq<TrayIcon>,
    cmd: TrayCommand,
    r: Applied,
)
    requires
        distinct_icons(before),
        applies(before, after, cmd, r),
        cmd.op == NIM_DELETE,
    ensures
        icon_index(after, cmd.data.owner, cmd.data.uid) is None,
{
    let d = cmd.data;
    lemma_icon_index(before, d.owner, d.uid);
    lemma_icon_index(after, d.owner, d.uid);
    if let Some(p) = icon_index(before, d.owner, d.uid) {
        assert forall|j: int| 0 <= j < after.len() implies !has_key(
            #[trigger] after[j],
            d.owner,
            d.uid,
        ) by {
            if j < p {
                assert(after[j] == before[j]);
                assert(!has_key(before[j], before[p].owner, before[p].uid));
            } else {
                assert(after[j] == before[j + 1]);
                assert(!has_key(before[p], before[j + 1].owner, before[j + 1].uid));
            }
        }
    }
}

/// Adding the same record again updates in place: it is reported as a success,
/// adds nothing and needs no repaint.
pub proof fn law_repeated_add_is_a_quiet_success(
    before: Seq<TrayIcon>,
    once: Seq<TrayIcon>,
    twice: Seq<TrayIcon>,
    cmd: TrayCommand,
    first: Applied,
    second: Applied,
)
    requires
        cmd.op == NIM_ADD,
        applies(before, once, cmd, first),
        applies(once, twice, cmd, second),
    ensures
        second.handled,
        !second.repaint,
        twice.len() == once.len(),
{
    let d = cmd.data;
    lemma_icon_index(before, d.owner, d.uid);
    lemma_icon_index(once, d.owner, d.uid);
    law_added_icons_are_registered(before, once, cmd, first);
    let p = icon_index(once, d.owner, d.uid)->0;
    match icon_index(before, d.owner, d.uid) {
        Some(q) => {
            assert(has_key(once[q], d.owner, d.uid));
            assert(p <= q);
            if p < q {
                assert(once[p] == before[p]);
            }
        },
        None => {
            if p < before.len() {
                assert(once[p] == once.drop_last()[p]);
                assert(has_key(before[p], d.owner, d.uid));
            }
            assert(once[p] == once.last());
        },
    }
}

/// A version switch is reported as a success exactly when it was recorded, so
/// that no owner ends up on an encoding the host does not use.
pub proof fn law_version_is_recorded_when_reported(
    before: Seq<TrayIcon>,
    after: Seq<TrayIcon>,
    cmd: TrayCommand,
    r: Applied,
)
    requires
        applies(before, after, cmd, r),
        cmd.op == NIM_SETVERSION,
    ensures
        r.handled <==> icon_index(before, cmd.data.owner, cmd.data.uid) is Some,
        icon_index(before, cmd.data.owner, cmd.data.uid) matches Some(p) ==> after[p].version
            == cmd.data.version,
{
    lemma_icon_index(before, cmd.data.owner, cmd.data.uid);
}

/// The four bytes of a number on the wire, lowest first; a negative number is
/// written in two's complement.
pub open spec fn wire32(n: int) -> Seq<u8> {
    seq![
        (n % 256) as u8,
        (n / 256 % 256) as u8,
        (n / 256 / 256 % 256) as u8,
        (n / 256 / 256 / 256 % 256) as u8,
    ]
}

/// The bytes of a text field of `width` units on the wire, zero behind the text.
pub open spec fn wire_text(units: Seq<u16>, width: nat) -> Seq<u8> {
    Seq::new(
        2 * width,
        |i: int|
            {
                let unit = if i / 2 < units.len() {
                    units[i / 2] as int
                } else {
                    0
                };
                (if i % 2 == 0 {
                    unit % 256
                } else {
                    unit / 256
                }) as u8
            },
    )
}

/// An icon record as its sender fills it in, with the message in front.
pub ghost struct WireRecord {
    pub magic: u32,
    pub message: u32,
    pub size: u32,
    pub owner: i32,
    pub uid: u32,
    pub flags: u32,
    pub callback: u32,
    pub icon: i32,
    pub tip: Seq<u16>,
    pub state: u32,
    pub state_mask: u32,
    pub info: Seq<u16>,
    pub version: u32,
    pub title: Seq<u16>,
    pub info_flags: u32,
}

/// The bytes of a record, field behind field; what follows the last one (an
/// identifier, a balloon icon) is `rest`.
#[verifier::opaque]
pub open spec fn wire_payload(f: WireRecord, rest: Seq<u8>) -> Seq<u8> {
    wire32(f.magic as int) + wire32(f.message as int) + wire32(f.size as int) + wire32(
        f.owner as int,
    ) + wire32(f.uid as int) + wire32(f.flags as int) + wire32(f.callback as int) + wire32(
        f.icon as int,
    ) + wire_text(f.tip, 128) + wire32(f.state as int) + wire32(f.state_mask as int) + wire_text(
        f.info,
        256,
    ) + wire32(f.version as int) + wire_text(f.title, 64) + wire32(f.info_flags as int) + rest
}

/// Whether those are the four bytes at `off`.
spec fn bytes_at(buf: Seq<u8>, off: int, n: int) -> bool {
    &&& off + 4 <= buf.len()
    &&& buf[off] == wire32(n)[0]
    &&& buf[off + 1] == wire32(n)[1]
    &&& buf[off + 2] == wire32(n)[2]
    &&& buf[off + 3] == wire32(n)[3]
}

proof fn lemma_bytes_at(buf: Seq<u8>, off: int, n: int)
    requires
        0 <= off,
        bytes_at(buf, off, n),
        -0x8000_0000 <= n <= 0xffff_ffff,
    ensures
        le32(buf, off) == if n < 0 {
            n + 0x1_0000_0000
        } else {
            n
        },
        n < 0x8000_0000 ==> sign_extended(le32(buf, off)) == n,
{
    let a = n / 256;
    let b = a / 256;
    let c = b / 256;
    assert(n == 256 * a + n % 256);
    assert(a == 256 * b + a % 256);
    assert(b == 256 * c + b % 256);
    assert(-128 <= c < 256);
    assert(c % 256 == if c < 0 {
        c + 256
    } else {
        c
    });
}

/// The places of the fields in a payload.
proof fn lemma_wire_places(f: WireRecord, rest: Seq<u8>)
    ensures
        ({
            let p = wire_payload(f, rest);
            &&& p.len() == 944 + rest.len()
            &&& bytes_at(p, 4, f.message as int)
            &&& bytes_at(p, 12, f.owner as int)
            &&& bytes_at(p, 16, f.uid as int)
            &&& bytes_at(p, 20, f.flags as int)
            &&& bytes_at(p, 24, f.callback as int)
            &&& bytes_at(p, 28, f.icon as int)
            &&& forall|i: int| 0 <= i < 256 ==> #[trigger] p[32 + i] == wire_text(f.tip, 128)[i]
            &&& bytes_at(p, 288, f.state as int)
            &&& bytes_at(p, 292, f.state_mask as int)
            &&& bytes_at(p, 808, f.version as int)
        }),
{
    reveal(wire_payload);
    let p = wire_payload(f, rest);
    assert(p[4] == wire32(f.message as int)[0]);
    assert(p[288] == wire32(f.state as int)[0]);
    assert(p[808] == wire32(f.version as int)[0]);
}

/// A text field holds the units in front of the first zero, the end of the field
/// or the end of the buffer.
proof fn lemma_field_units(buf: Seq<u8>, off: int, wchars: int, units: Seq<u16>)
    requires
        0 <= off,
        units.len() <= wchars,
        off + 2 * units.len() <= buf.len(),
        forall|i: int|
            0 <= i < units.len() ==> le16(buf, off + 2 * i) == (#[trigger] units[i]) && units[i]
                != 0,
        units.len() == wchars || off + 2 * units.len() + 2 > buf.len() || le16(
            buf,
            off + 2 * units.len(),
        ) == 0,
    ensures
        field_units(buf, off, wchars) == units,
    decreases units.len(),
{
    if units.len() > 0 {
        let tail = units.skip(1);
        assert(le16(buf, off + 2 * 0) == units[0]);
        assert forall|i: int| 0 <= i < tail.len() implies le16(buf, (off + 2) + 2 * i) == (
        #[trigger] tail[i]) && tail[i] != 0 by {
            assert(tail[i] == units[i + 1]);
            assert(off + 2 * (i + 1) == (off + 2) + 2 * i);
        }
        lemma_field_units(buf, off + 2, wchars - 1, tail);
        assert(seq![units[0]] + tail =~= units);
    } else {
        assert(field_units(buf, off, wchars) =~= units);
    }
}

/// The tip of a payload that is cut short.
proof fn lemma_tip(buf: Seq<u8>, tip: Seq<u16>)
    requires
        buf.len() >= 32,
        tip.len() <= 128,
        forall|i: int| 0 <= i < tip.len() ==> #[trigger] tip[i] != 0,
        forall|i: int|
            0 <= i < 256 && 32 + i < buf.len() ==> #[trigger] buf[32 + i] == wire_text(tip, 128)[i],
    ensures
        ({
            let width: int = if buf.len() >= 296 {
                128
            } else {
                64
            };
            let whole = (buf.len() - 32) / 2;
            let room = if whole < width {
                whole
            } else {
                width
            };
            let cut = if tip.len() < room {
                tip.len() as int
            } else {
                room
            };
            field_units(buf, 32, width) == tip.take(cut)
        }),
{
    let n = buf.len() as int;
    let width: int = if n >= 296 {
        128
    } else {
        64
    };
    let whole = (n - 32) / 2;
    let room = if whole < width {
        whole
    } else {
        width
    };
    let cut = if tip.len() < room {
        tip.len() as int
    } else {
        room
    };
    let units = tip.take(cut);
    let bytes = wire_text(tip, 128);
    assert forall|i: int| 0 <= i < room implies #[trigger] le16(buf, 32 + 2 * i) == if i
        < tip.len() {
        tip[i] as int
    } else {
        0
    } by {
        assert(buf[32 + (2 * i)] == bytes[2 * i]);
        assert(buf[32 + (2 * i + 1)] == bytes[2 * i + 1]);
    }
    assert forall|i: int| 0 <= i < units.len() implies le16(buf, 32 + 2 * i) == (#[trigger] units[i])
        && units[i] != 0 by {
        assert(units[i] == tip[i]);
    }
    if cut < room {
        assert(le16(buf, 32 + 2 * cut) == 0);
    }
    lemma_field_units(buf, 32, width, units);
}

/// A payload written field by field parses back to those fields. Where it is cut
/// short it parses as long as it reaches past the icon handle: the state counts
/// from a long record on, the version where its field is whole, and the tip as
/// far as it goes, at most half as long in the oldest form.
pub proof fn law_a_record_parses_back(f: WireRecord, rest: Seq<u8>, n: int, cmd: TrayCommand)
    requires
        f.tip.len() <= 128,
        forall|i: int| 0 <= i < f.tip.len() ==> #[trigger] f.tip[i] != 0,
        0 <= n <= wire_payload(f, rest).len(),
        is_command_of(cmd, wire_payload(f, rest).take(n)),
        n >= 32,
    ensures
        cmd.op == f.message,
        cmd.data.owner == f.owner,
        cmd.data.uid == f.uid,
        cmd.data.flags == f.flags,
        cmd.data.callback == f.callback,
        cmd.data.hicon == f.icon,
        cmd.data.state == if n >= 296 {
            f.state
        } else {
            0
        },
        cmd.data.state_mask == if n >= 296 {
            f.state_mask
        } else {
            0
        },
        cmd.data.version == if n >= 812 {
            f.version
        } else {
            0
        },
        ({
            let width: int = if n >= 296 {
                128
            } else {
                64
            };
            let whole = (n - 32) / 2;
            let room = if whole < width {
                whole
            } else {
                width
            };
            let cut = if f.tip.len() < room {
                f.tip.len() as int
            } else {
                room
            };
            cmd.data.tip@ == text::utf16_text(f.tip.take(cut))
        }),
        forall|s: Seq<char>|
            n >= 296 && f.tip == #[trigger] text::utf16_of(s) ==> cmd.data.tip@ == s,
{
    let p = wire_payload(f, rest);
    let buf = p.take(n);
    lemma_wire_places(f, rest);
    lemma_bytes_at(buf, 4, f.message as int);
    lemma_bytes_at(buf, 12, f.owner as int);
    lemma_bytes_at(buf, 16, f.uid as int);
    lemma_bytes_at(buf, 20, f.flags as int);
    lemma_bytes_at(buf, 24, f.callback as int);
    lemma_bytes_at(buf, 28, f.icon as int);
    if n >= 296 {
        lemma_bytes_at(buf, 288, f.state as int);
        lemma_bytes_at(buf, 292, f.state_mask as int);
    }
    if n >= 812 {
        lemma_bytes_at(buf, 808, f.version as int);
    }
    lemma_tip(buf, f.tip);
    assert forall|s: Seq<char>| n >= 296 && f.tip == #[trigger] text::utf16_of(s) implies
        cmd.data.tip@ == s by {
        assert(f.tip.take(f.tip.len() as int) =~= f.tip);
        text::law_utf16_round_trips(s, 0, Seq::empty());
    }
}

/// A payload parses exactly where it reaches past the icon handle, whatever its
/// bytes are.
pub proof fn law_short_payloads_are_refused(buf: Seq<u8>)
    ensures
        is_tray_payload(buf) <==> buf.len() >= 32,
{
}

/// A command taken over changes what its record flags, and nothing else: 1 flags
/// the callback, 2 the image, 4 the tip, and 8 the state, of which the mask picks
/// the hidden bit. The revision moves exactly where the image does.
pub proof fn law_records_change_what_they_flag(before: TrayIcon, after: TrayIcon, d: IconData)
    requires
        takes_over(before, after, d),
    ensures
        after.owner == before.owner && after.uid == before.uid && after.version == before.version,
        d.flags & 1 == 0 ==> after.callback == before.callback,
        d.flags & 1 != 0 ==> after.callback == d.callback,
        d.flags & 2 == 0 ==> after.hicon == before.hicon,
        d.flags & 2 != 0 ==> after.hicon == d.hicon,
        after.rev == before.rev <==> after.hicon == before.hicon,
        d.flags & 4 == 0 ==> after.tip@ == before.tip@,
        d.flags & 4 != 0 ==> after.tip@ == d.tip@,
        d.flags & 8 == 0 || d.state_mask & 1 == 0 ==> after.hidden == before.hidden,
        d.flags & 8 != 0 && d.state_mask & 1 != 0 ==> after.hidden == (d.state & 1 != 0),
{
    let s = d.state;
    let m = d.state_mask;
    assert(m & 1 != 0 ==> ((s & m & 1 != 0) == (s & 1 != 0))) by (bit_vector);
}

/// What each message does. An icon is known by its owner and its id. 0 adds it or
/// updates it, 1 updates it, 2 takes it away, 3 changes nothing, and 4 records
/// the version its owner speaks; all but the first ask for an icon that is there,
/// and any other message is refused. Other icons stay as they are.
pub proof fn law_messages_act_on_their_icon(
    before: Seq<TrayIcon>,
    after: Seq<TrayIcon>,
    cmd: TrayCommand,
    r: Applied,
    p: int,
)
    requires
        distinct_icons(before),
        applies(before, after, cmd, r),
        0 <= p < before.len() ==> before[p].owner == cmd.data.owner && before[p].uid
            == cmd.data.uid,
        !(0 <= p < before.len()) ==> forall|i: int|
            0 <= i < before.len() ==> !((#[trigger] before[i]).owner == cmd.data.owner
                && before[i].uid == cmd.data.uid),
    ensures
        ({
            let known = 0 <= p < before.len();
            let d = cmd.data;
            &&& r.handled <==> cmd.op == 0 || (known && cmd.op <= 4)
            &&& !known && cmd.op == 0 ==> {
                &&& after.len() == before.len() + 1
                &&& after.take(before.len() as int) == before
                &&& after.last().owner == d.owner && after.last().uid == d.uid
                &&& after.last().version == 0
                &&& after.last().callback == if d.flags & 1 != 0 {
                    d.callback
                } else {
                    0
                }
                &&& after.last().hicon == if d.flags & 2 != 0 {
                    d.hicon
                } else {
                    0
                }
                &&& after.last().hidden == (d.flags & 8 != 0 && d.state_mask & 1 != 0 && d.state & 1
                    != 0)
                &&& r.repaint
            }
            &&& known && cmd.op <= 1 ==> {
                &&& after == before.update(p, after[p])
                &&& takes_over(before[p], after[p], d)
                &&& r.repaint <==> after[p].hicon != before[p].hicon || after[p].hidden
                    != before[p].hidden
            }
            &&& known && cmd.op == 2 ==> after == before.take(p) + before.skip(p + 1) && r.repaint
            &&& known && cmd.op == 3 ==> after == before && !r.repaint
            &&& known && cmd.op == 4 ==> after == before.update(
                p,
                TrayIcon { version: d.version, ..before[p] },
            ) && !r.repaint
            &&& !r.handled ==> after == before && !r.repaint
        }),
{
    let d = cmd.data;
    lemma_icon_index(before, d.owner, d.uid);
    let known = 0 <= p < before.len();
    if known {
        assert(has_key(before[p], d.owner, d.uid));
        let q = icon_index(before, d.owner, d.uid)->0;
        if q != p {
            assert(has_key(before[q], before[p].owner, before[p].uid));
            assert(has_key(before[p], before[q].owner, before[q].uid));
        }
        assert(q == p);
        if cmd.op == 2 {
            assert(before.remove(p) =~= before.take(p) + before.skip(p + 1));
        }
        if cmd.op <= 1 {
            law_records_change_what_they_flag(before[p], after[p], d);
            let s = d.state;
            let m = d.state_mask;
            assert(m & 1 != 0 ==> ((s & m & 1 != 0) == (s & 1 != 0))) by (bit_vector);
        }
    } else {
        assert(icon_index(before, d.owner, d.uid) is None) by {
            if icon_index(before, d.owner, d.uid) is Some {
                let q = icon_index(before, d.owner, d.uid)->0;
                assert(has_key(before[q], d.owner, d.uid));
            }
        }
        if cmd.op == 0 {
            assert(after.take(before.len() as int) =~= after.drop_last());
            let blank = choose|blank: TrayIcon|
                is_blank(blank, d.owner, d.uid) && #[trigger] takes_over(blank, after.last(), d);
            law_records_change_what_they_flag(blank, after.last(), d);
        }
    }
}

/// An owner that speaks version 4 reads the anchor out of the two words of the
/// first number, and the event and the icon's id out of those of the second; an
/// older one is sent the id and the event as they are.
pub proof fn law_owners_read_the_callback_they_negotiated(
    icon: TrayIcon,
    msg: u32,
    x: int,
    y: int,
)
    requires
        -0x8000 <= x < 0x8000,
        -0x8000 <= y < 0x8000,
        msg < 0x1_0000,
    ensures
        icon.version < 4 ==> callback_numbers(icon, msg, x, y) == (icon.uid as int, msg as int),
        icon.version >= 4 ==> {
            let (w, l) = callback_numbers(icon, msg, x, y);
            &&& 0 <= w < 4294967296
            &&& w % 65536 == x % 65536
            &&& w / 65536 == y % 65536
            &&& -2147483648 <= l < 2147483648
            &&& l % 65536 == msg
            &&& l / 65536 % 65536 == icon.uid as int % 65536
        },
{
    if icon.version >= 4 {
        let a = x % 65536;
        let b = y % 65536;
        vstd::arithmetic::div_mod::lemma_fundamental_div_mod_converse(a + b * 65536, 65536, b, a);
        let u = icon.uid as int % 65536;
        let v = msg as int + u * 65536;
        if v < 0x8000_0000 {
            vstd::arithmetic::div_mod::lemma_fundamental_div_mod_converse(v, 65536, u, msg as int);
        } else {
            let l = v - 0x1_0000_0000;
            vstd::arithmetic::div_mod::lemma_fundamental_div_mod_converse(
                l,
                65536,
                u - 65536,
                msg as int,
            );
            vstd::arithmetic::div_mod::lemma_fundamental_div_mod_converse(u - 65536, 65536, -1, u);
        }
    } else {
        assert(msg as isize == msg as int);
    }
}

/// The commands, flags and messages of the notification area by the numbers the
/// system gives them, and where the parts of a record stand.
pub proof fn law_the_tray_knows_the_systems_numbers()
    ensures
        NIM_ADD == 0,
        NIM_MODIFY == 1,
        NIM_DELETE == 2,
        NIM_SETFOCUS == 3,
        NIM_SETVERSION == 4,
        NIF_MESSAGE == 0x1,
        NIF_ICON == 0x2,
        NIF_TIP == 0x4,
        NIF_STATE == 0x8,
        NIS_HIDDEN == 0x1,
        VERSION_4 == 4,
        NIN_SELECT == 0x0400,
        WM_CONTEXTMENU == 0x007B,
        RECORD == 8,
        RECORD_HEAD == 24,
        LONG_RECORD == 288,
        VERSION_FIELD == 800,
{
}

} // verus!
