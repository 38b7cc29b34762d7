//! The notification-area host: the registry of icons with their decoded pixels,
//! and the mouse events that go back to their owners.
//!
//! Icons are hosted in a swapped session only: unswapped, the stock taskbar is
//! there, and a second host would fight it for every registration.
use vstd::prelude::*;

use crate::taskbar::tasks::Icon;
use crate::taskbar::tray::{self, TrayCommand, TrayIcon};

verus! {

/// Decoded pixels of a tray icon (`None` where it has none that decode).
#[derive(Debug, PartialEq, Eq)]
pub struct TrayPixels {
    pub owner: isize,
    pub uid: u32,
    pub icon: Option<Icon>,
}

/// The hosted icons.
pub struct TrayHost {
    /// Whether icons are hosted at all.
    pub hosting: bool,
    /// The registry, in the order of registration.
    pub icons: Vec<TrayIcon>,
    /// Decoded pixels, at most one entry per icon.
    pub pixels: Vec<TrayPixels>,
}

/// The pixels stored for an icon: `None` where nothing is stored.
pub open spec fn pixels_of(list: Seq<TrayPixels>, owner: isize, uid: u32) -> Option<Option<Icon>>
    decreases list.len(),
{
    if list.len() == 0 {
        None
    } else if list.last().owner == owner && list.last().uid == uid {
        Some(list.last().icon)
    } else {
        pixels_of(list.drop_last(), owner, uid)
    }
}

/// What the bar does about a change.
#[derive(Debug, Clone, Copy, PartialEq, Eq, Structural)]
pub enum Repaint {
    Nothing,
    /// Draw the bars again.
    Redraw,
    /// Lay the bars out again, and draw them.
    Relayout,
}

/// The number of icons a viewer can see.
pub open spec fn visible_count(icons: Seq<TrayIcon>) -> nat
    decreases icons.len(),
{
    if icons.len() == 0 {
        0
    } else if icons.last().hidden {
        visible_count(icons.drop_last())
    } else {
        visible_count(icons.drop_last()) + 1
    }
}

/// The position in the registry of the `n`-th icon a viewer can see.
pub open spec fn visible_at(icons: Seq<TrayIcon>, n: int) -> Option<int>
    decreases icons.len(),
{
    if icons.len() == 0 {
        None
    } else if !icons.last().hidden && visible_count(icons.drop_last()) == n {
        Some(icons.len() - 1)
    } else {
        visible_at(icons.drop_last(), n)
    }
}

/// How many icons a viewer can see.
pub fn visible_tray(icons: &Vec<TrayIcon>) -> (r: usize)
    ensures
        r == visible_count(icons@),
{
    let mut n: usize = 0;
    let mut i: usize = 0;
    while i < icons.len()
        invariant
            i <= icons@.len(),
            n <= i,
            n == visible_count(icons@.take(i as int)),
        decreases icons@.len() - i,
    {
        proof {
            assert(icons@.take(i + 1).drop_last() =~= icons@.take(i as int));
            assert(icons@.take(i + 1).last() == icons@[i as int]);
        }
        if !icons[i].hidden {
            n = n + 1;
        }
        i = i + 1;
    }
    proof {
        assert(icons@.take(icons@.len() as int) =~= icons@);
    }
    n
}

/// Before the `n`-th visible icon there are `n` of them, and none is at or
/// after the end.
proof fn lemma_visible_at(icons: Seq<TrayIcon>, n: int)
    ensures
        visible_at(icons, n) matches Some(p) ==> {
            &&& 0 <= p < icons.len()
            &&& !icons[p].hidden
            &&& visible_count(icons.take(p)) == n
        },
        visible_at(icons, n) is Some <==> 0 <= n < visible_count(icons),
    decreases icons.len(),
{
    if icons.len() > 0 {
        let init = icons.drop_last();
        lemma_visible_at(init, n);
        assert(icons.take(icons.len() - 1) =~= init);
        if let Some(p) = visible_at(init, n) {
            assert(init.take(p) =~= icons.take(p));
            assert(init[p] == icons[p]);
        }
    }
}

/// The first position with that many visible icons before it and a visible one
/// at it is the one.
proof fn lemma_visible_at_is(icons: Seq<TrayIcon>, p: int)
    requires
        0 <= p < icons.len(),
        !icons[p].hidden,
    ensures
        visible_at(icons, visible_count(icons.take(p)) as int) == Some(p),
        visible_count(icons.take(p)) < visible_count(icons),
    decreases icons.len(),
{
    let init = icons.drop_last();
    if p == icons.len() - 1 {
        assert(icons.take(p) =~= init);
    } else {
        lemma_visible_at_is(init, p);
        assert(init[p] == icons[p]);
        assert(init.take(p) =~= icons.take(p));
    }
}

/// The position in the registry of the `n`-th icon a viewer can see.
pub fn visible_icon(icons: &Vec<TrayIcon>, n: usize) -> (r: Option<usize>)
    ensures
        match r {
            Some(p) => visible_at(icons@, n as int) == Some(p as int),
            None => visible_at(icons@, n as int) is None,
        },
        r matches Some(p) ==> p < icons@.len(),
{
    let mut seen: usize = 0;
    let mut i: usize = 0;
    proof {
        lemma_visible_at(icons@, n as int);
    }
    while i < icons.len()
        invariant
            i <= icons@.len(),
            seen <= i,
            seen <= n,
            seen == visible_count(icons@.take(i as int)),
        decreases icons@.len() - i,
    {
        proof {
            assert(icons@.take(i + 1).drop_last() =~= icons@.take(i as int));
            assert(icons@.take(i + 1).last() == icons@[i as int]);
        }
        if !icons[i].hidden {
            if seen == n {
                proof {
                    lemma_visible_at_is(icons@, i as int);
                }
                return Some(i);
            }
            seen = seen + 1;
        }
        i = i + 1;
    }
    proof {
        assert(icons@.take(icons@.len() as int) =~= icons@);
        lemma_visible_at(icons@, n as int);
    }
    None
}

/// A tray icon as it is drawn.
pub struct TrayItem<'a> {
    pub owner: isize,
    pub uid: u32,
    /// Counts the changes of the image, so that a drawn copy can be told stale.
    pub rev: u32,
    pub icon: Option<&'a Icon>,
}

/// Whether `item` is how an icon with these pixels stored is drawn.
pub open spec fn is_item_of(item: TrayItem, icon: TrayIcon, pixels: Seq<TrayPixels>) -> bool {
    &&& item.owner == icon.owner
    &&& item.uid == icon.uid
    &&& item.rev == icon.rev
    &&& match pixels_of(pixels, icon.owner, icon.uid) {
        Some(Some(image)) => item.icon matches Some(r) && *r == image,
        _ => item.icon is None,
    }
}

/// Whether these are the icons a viewer can see, as they are drawn, in order.
pub open spec fn are_visible_items(
    items: Seq<TrayItem>,
    icons: Seq<TrayIcon>,
    pixels: Seq<TrayPixels>,
) -> bool
    decreases icons.len(),
{
    if icons.len() == 0 {
        items.len() == 0
    } else if icons.last().hidden {
        are_visible_items(items, icons.drop_last(), pixels)
    } else {
        &&& items.len() > 0
        &&& is_item_of(items.last(), icons.last(), pixels)
        &&& are_visible_items(items.drop_last(), icons.drop_last(), pixels)
    }
}

/// What is drawn in a tray cell is the icon that a click on the cell goes to: the
/// `n`-th item is the `n`-th icon a viewer can see, and there are as many.
pub proof fn law_tray_cells_stand_for_visible_icons(
    items: Seq<TrayItem>,
    icons: Seq<TrayIcon>,
    pixels: Seq<TrayPixels>,
    n: int,
)
    requires
        are_visible_items(items, icons, pixels),
    ensures
        items.len() == visible_count(icons),
        visible_at(icons, n) is Some <==> 0 <= n < items.len(),
        visible_at(icons, n) matches Some(p) ==> is_item_of(items[n], icons[p], pixels),
    decreases icons.len(),
{
    lemma_visible_at(icons, n);
    if icons.len() > 0 {
        let init = icons.drop_last();
        let first = if icons.last().hidden {
            items
        } else {
            items.drop_last()
        };
        law_tray_cells_stand_for_visible_icons(first, init, pixels, n);
        lemma_visible_at(init, n);
        if let Some(p) = visible_at(init, n) {
            assert(init[p] == icons[p]);
            assert(first[n] == items[n]);
        }
    }
}

/// The image stored for an icon, if there is one.
fn image_of<'a>(list: &'a Vec<TrayPixels>, owner: isize, uid: u32) -> (r: Option<&'a Icon>)
    ensures
        match pixels_of(list@, owner, uid) {
            Some(Some(image)) => r matches Some(i) && *i == image,
            _ => r is None,
        },
{
    let mut i: usize = list.len();
    proof {
        assert(list@.take(i as int) =~= list@);
    }
    while i > 0
        invariant
            i <= list@.len(),
            pixels_of(list@, owner, uid) == pixels_of(list@.take(i as int), owner, uid),
        decreases i,
    {
        proof {
            assert(list@.take(i as int).drop_last() =~= list@.take(i - 1));
            assert(list@.take(i as int).last() == list@[i - 1]);
        }
        i = i - 1;
        if list[i].owner == owner && list[i].uid == uid {
            return list[i].icon.as_ref();
        }
    }
    None
}

impl TrayHost {
    /// The icons a viewer can see, as they are drawn, in order.
    pub fn items<'a>(&'a self) -> (r: Vec<TrayItem<'a>>)
        ensures
            are_visible_items(r@, self.icons@, self.pixels@),
    {
        let mut out: Vec<TrayItem<'a>> = Vec::new();
        let mut i: usize = 0;
        while i < self.icons.len()
            invariant
                i <= self.icons@.len(),
                are_visible_items(out@, self.icons@.take(i as int), self.pixels@),
            decreases self.icons@.len() - i,
        {
            proof {
                assert(self.icons@.take(i + 1).drop_last() =~= self.icons@.take(i as int));
                assert(self.icons@.take(i + 1).last() == self.icons@[i as int]);
            }
            let icon = &self.icons[i];
            if !icon.hidden {
                let ghost before = out@;
                out.push(
                    TrayItem {
                        owner: icon.owner,
                        uid: icon.uid,
                        rev: icon.rev,
                        icon: image_of(&self.pixels, icon.owner, icon.uid),
                    },
                );
                proof {
                    assert(out@.drop_last() =~= before);
                }
            }
            i = i + 1;
        }
        proof {
            assert(self.icons@.take(self.icons@.len() as int) =~= self.icons@);
        }
        out
    }
}

/// What is done about a registration message: the kind of data it is marked as,
/// and the bytes, if there are any. Only icon registrations are hosted.
pub fn tray_payload(kind: usize, bytes: Option<&[u8]>) -> (r: Option<TrayCommand>)
    ensures
        r is Some <==> kind == 1 && (bytes matches Some(b) && tray::is_tray_payload(b@)),
        r matches Some(cmd) ==> bytes matches Some(b) && tray::is_command_of(cmd, b@),
{
    if kind != 1 {
        return None;
    }
    match bytes {
        None => None,
        Some(b) => tray::parse(b),
    }
}

/// Whether a command brings an image that the registry does not have yet, so
/// that it is to be decoded. Owners send the same image over and over.
pub open spec fn brings_image(icons: Seq<TrayIcon>, cmd: TrayCommand) -> bool {
    let d = cmd.data;
    &&& d.flags & tray::NIF_ICON != 0
    &&& d.hicon != 0
    &&& match tray::icon_index(icons, d.owner, d.uid) {
        Some(p) => icons[p].hicon != d.hicon,
        None => true,
    }
}

/// The answer to a registration message, and what the bar does about it.
#[derive(Debug, Clone, Copy, PartialEq, Eq, Structural)]
pub struct TrayReply {
    /// Whether the command was carried out, which is what the sender is told.
    pub handled: bool,
    pub repaint: Repaint,
}

/// Taking out an entry of another icon leaves an icon's pixels as they were.
proof fn lemma_other_entry(list: Seq<TrayPixels>, p: int, owner: isize, uid: u32)
    requires
        0 <= p < list.len(),
        list[p].owner != owner || list[p].uid != uid,
    ensures
        pixels_of(list.remove(p), owner, uid) == pixels_of(list, owner, uid),
    decreases list.len(),
{
    let init = list.drop_last();
    if p == list.len() - 1 {
        assert(list.remove(p) =~= init);
    } else {
        lemma_other_entry(init, p, owner, uid);
        assert(list.remove(p).drop_last() =~= init.remove(p));
        assert(list.remove(p).last() == list.last());
        assert(init[p] == list[p]);
    }
}

/// An icon without an entry has no pixels stored.
proof fn lemma_no_entry(list: Seq<TrayPixels>, owner: isize, uid: u32)
    requires
        forall|i: int|
            0 <= i < list.len() ==> (#[trigger] list[i]).owner != owner || list[i].uid != uid,
    ensures
        pixels_of(list, owner, uid) is None,
    decreases list.len(),
{
    if list.len() > 0 {
        let init = list.drop_last();
        assert forall|i: int| 0 <= i < init.len() implies (#[trigger] init[i]).owner != owner
            || init[i].uid != uid by {
            assert(init[i] == list[i]);
        }
        lemma_no_entry(init, owner, uid);
        assert(list[list.len() - 1] == list.last());
    }
}

/// Forget an icon's pixels.
fn drop_pixels(list: &mut Vec<TrayPixels>, owner: isize, uid: u32)
    ensures
        forall|o: isize, u: u32|
            #[trigger] pixels_of(final(list)@, o, u) == if o == owner && u == uid {
                None
            } else {
                pixels_of(old(list)@, o, u)
            },
{
    let mut i: usize = 0;
    while i < list.len()
        invariant
            i <= list@.len(),
            forall|k: int| 0 <= k < i ==> (#[trigger] list@[k]).owner != owner || list@[k].uid != uid,
            forall|o: isize, u: u32|
                o != owner || u != uid ==> #[trigger] pixels_of(list@, o, u) == pixels_of(
                    old(list)@,
                    o,
                    u,
                ),
        decreases list@.len() - i,
    {
        if list[i].owner == owner && list[i].uid == uid {
            let ghost before = list@;
            let _ = list.remove(i);
            proof {
                assert forall|o: isize, u: u32| o != owner || u != uid implies #[trigger] pixels_of(
                    list@,
                    o,
                    u,
                ) == pixels_of(old(list)@, o, u) by {
                    lemma_other_entry(before, i as int, o, u);
                }
            }
        } else {
            i = i + 1;
        }
    }
    proof {
        lemma_no_entry(list@, owner, uid);
    }
}

/// Remember an icon's pixels.
fn store_pixels(list: &mut Vec<TrayPixels>, owner: isize, uid: u32, icon: Option<Icon>)
    ensures
        forall|o: isize, u: u32|
            #[trigger] pixels_of(final(list)@, o, u) == if o == owner && u == uid {
                Some(icon)
            } else {
                pixels_of(old(list)@, o, u)
            },
{
    drop_pixels(list, owner, uid);
    let ghost before = list@;
    list.push(TrayPixels { owner, uid, icon });
    proof {
        assert(list@.drop_last() =~= before);
        assert forall|o: isize, u: u32| #[trigger]
            pixels_of(list@, o, u) == if o == owner && u == uid {
                Some(icon)
            } else {
                pixels_of(before, o, u)
            } by {}
    }
}

/// What a command does to the stored pixels, given what its image decoded to.
pub open spec fn pixels_after(
    host: TrayHost,
    cmd: TrayCommand,
    handled: bool,
    image: Option<Icon>,
    owner: isize,
    uid: u32,
) -> Option<Option<Icon>> {
    if handled && owner == cmd.data.owner && uid == cmd.data.uid && cmd.op == tray::NIM_DELETE {
        None
    } else if handled && owner == cmd.data.owner && uid == cmd.data.uid && brings_image(
        host.icons@,
        cmd,
    ) {
        Some(image)
    } else {
        pixels_of(host.pixels@, owner, uid)
    }
}

/// The answer to a command with that outcome: lay out where the number of
/// visible icons changed, redraw where a viewer could see the difference.
pub open spec fn reply_of(
    before: Seq<TrayIcon>,
    after: Seq<TrayIcon>,
    applied: tray::Applied,
) -> TrayReply {
    TrayReply {
        handled: applied.handled,
        repaint: if visible_count(before) != visible_count(after) {
            Repaint::Relayout
        } else if applied.repaint {
            Repaint::Redraw
        } else {
            Repaint::Nothing
        },
    }
}

/// A mouse event to post to the owner of an icon, and the encodings of it and of
/// what follows it.
#[derive(Debug, PartialEq, Eq)]
pub struct TrayPost {
    pub owner: isize,
    pub callback: u32,
    pub params: Vec<(usize, isize)>,
}

/// Mouse messages.
pub const WM_LBUTTONDOWN: u32 = 0x0201;
pub const WM_LBUTTONUP: u32 = 0x0202;
pub const WM_RBUTTONDOWN: u32 = 0x0204;
pub const WM_RBUTTONUP: u32 = 0x0205;

/// The events an owner gets for a mouse message: the message, and for version 4
/// owners the activation or the menu request that follows a button going up.
pub open spec fn events_of(version: u32, msg: u32) -> Seq<u32> {
    if version >= tray::VERSION_4 && msg == WM_LBUTTONUP {
        seq![msg, tray::NIN_SELECT]
    } else if version >= tray::VERSION_4 && msg == WM_RBUTTONUP {
        seq![msg, tray::WM_CONTEXTMENU]
    } else {
        seq![msg]
    }
}

/// Whether `post` is what the owner of an icon gets for a mouse message.
pub open spec fn is_post(post: TrayPost, icon: TrayIcon, msg: u32, x: i32, y: i32) -> bool {
    let events = events_of(icon.version, msg);
    &&& post.owner == icon.owner
    &&& post.callback == icon.callback
    &&& post.params@.len() == events.len()
    &&& forall|i: int|
        #![trigger post.params@[i]]
        0 <= i < events.len() ==> {
            let numbers = tray::callback_numbers(icon, events[i], x as int, y as int);
            post.params@[i].0 == numbers.0 && post.params@[i].1 == numbers.1
        }
}

impl TrayHost {
    /// No icons yet.
    pub fn new(hosting: bool) -> (r: Self)
        ensures
            r.hosting == hosting,
            r.icons@.len() == 0,
            r.pixels@.len() == 0,
    {
        TrayHost { hosting, icons: Vec::new(), pixels: Vec::new() }
    }

    /// Whether a command brings an image that is to be decoded.
    pub fn icon_changed(&self, cmd: &TrayCommand) -> (r: bool)
        ensures
            r == brings_image(self.icons@, *cmd),
    {
        if cmd.data.flags & tray::NIF_ICON == 0 || cmd.data.hicon == 0 {
            return false;
        }
        match tray::find_icon(&self.icons, cmd.data.owner, cmd.data.uid) {
            Some(p) => self.icons[p].hicon != cmd.data.hicon,
            None => true,
        }
    }

    /// A registration arrived: carry it out, keep the decoded pixels of its
    /// image (or drop those of an icon that goes), and say what the sender is
    /// told and what the bar does. `image` is what the image decoded to where
    /// [`TrayHost::icon_changed`] asked for it.
    pub fn on_tray_copydata(&mut self, cmd: &TrayCommand, image: Option<Icon>) -> (r: TrayReply)
        ensures
            final(self).hosting == old(self).hosting,
            exists|applied: tray::Applied|
                {
                    &&& #[trigger] tray::applies(
                        old(self).icons@,
                        final(self).icons@,
                        *cmd,
                        applied,
                    )
                    &&& r == reply_of(old(self).icons@, final(self).icons@, applied)
                },
            forall|o: isize, u: u32|
                #[trigger] pixels_of(final(self).pixels@, o, u) == pixels_after(
                    *old(self),
                    *cmd,
                    r.handled,
                    image,
                    o,
                    u,
                ),
    {
        let changed: bool = self.icon_changed(cmd);
        let before: usize = visible_tray(&self.icons);
        let applied = tray::apply(&mut self.icons, cmd);
        if applied.handled {
            if cmd.op == tray::NIM_DELETE {
                drop_pixels(&mut self.pixels, cmd.data.owner, cmd.data.uid);
            } else if changed {
                store_pixels(&mut self.pixels, cmd.data.owner, cmd.data.uid, image);
            }
        }
        let after: usize = visible_tray(&self.icons);
        let repaint = if before != after {
            Repaint::Relayout
        } else if applied.repaint {
            Repaint::Redraw
        } else {
            Repaint::Nothing
        };
        TrayReply { handled: applied.handled, repaint }
    }

    /// A mouse message on the `n`-th visible icon: what to post to its owner, in
    /// the encoding it negotiated. Nothing where the owner asked for no
    /// callbacks. `x` and `y` are screen coordinates.
    pub fn forward_tray_mouse(&self, n: usize, msg: u32, x: i32, y: i32) -> (r: Option<TrayPost>)
        ensures
            match visible_at(self.icons@, n as int) {
                Some(p) => {
                    &&& r is Some <==> self.icons@[p].callback != 0
                    &&& r matches Some(post) ==> is_post(post, self.icons@[p], msg, x, y)
                },
                None => r is None,
            },
    {
        let icon = match visible_icon(&self.icons, n) {
            Some(p) => &self.icons[p],
            None => {
                return None;
            },
        };
        if icon.callback == 0 {
            return None;
        }
        let mut params: Vec<(usize, isize)> = Vec::new();
        params.push(tray::callback_params(icon, msg, x, y));
        if icon.version >= tray::VERSION_4 {
            if msg == WM_LBUTTONUP {
                params.push(tray::callback_params(icon, tray::NIN_SELECT, x, y));
            } else if msg == WM_RBUTTONUP {
                params.push(tray::callback_params(icon, tray::WM_CONTEXTMENU, x, y));
            }
        }
        Some(TrayPost { owner: icon.owner, callback: icon.callback, params })
    }

    /// The owners to look after: those of all icons, where icons are hosted.
    pub fn owners(&self) -> (r: Vec<isize>)
        ensures
            !self.hosting ==> r@.len() == 0,
            self.hosting ==> r@ == self.icons@.map_values(|t: TrayIcon| t.owner),
    {
        let mut out: Vec<isize> = Vec::new();
        if !self.hosting {
            return out;
        }
        let mut i: usize = 0;
        while i < self.icons.len()
            invariant
                i <= self.icons@.len(),
                out@ == self.icons@.take(i as int).map_values(|t: TrayIcon| t.owner),
            decreases self.icons@.len() - i,
        {
            proof {
                assert(self.icons@.take(i + 1) =~= self.icons@.take(i as int).push(
                    self.icons@[i as int],
                ));
            }
            out.push(self.icons[i].owner);
            i = i + 1;
            proof {
                assert(out@ =~= self.icons@.take(i as int).map_values(|t: TrayIcon| t.owner));
            }
        }
        proof {
            assert(self.icons@.take(self.icons@.len() as int) =~= self.icons@);
        }
        out
    }
}

/// The icons whose owners are not among the dead ones, in order.
pub open spec fn surviving_icons(icons: Seq<TrayIcon>, dead: Seq<isize>) -> Seq<TrayIcon>
    decreases icons.len(),
{
    if icons.len() == 0 {
        Seq::empty()
    } else if dead.contains(icons.last().owner) {
        surviving_icons(icons.drop_last(), dead)
    } else {
        surviving_icons(icons.drop_last(), dead).push(icons.last())
    }
}

/// Whether a handle is in a list.
pub fn contains_handle(list: &Vec<isize>, h: isize) -> (r: bool)
    ensures
        r == list@.contains(h),
{
    let mut i: usize = 0;
    while i < list.len()
        invariant
            i <= list@.len(),
            forall|k: int| 0 <= k < i ==> #[trigger] list@[k] != h,
        decreases list@.len() - i,
    {
        if list[i] == h {
            return true;
        }
        i = i + 1;
    }
    false
}

/// Survivors are counted up from the front: a list whose first `n` icons
/// survive and whose next does not survives without that one.
proof fn lemma_surviving_without(icons: Seq<TrayIcon>, dead: Seq<isize>, p: int)
    requires
        0 <= p < icons.len(),
        dead.contains(icons[p].owner),
    ensures
        surviving_icons(icons.remove(p), dead) == surviving_icons(icons, dead),
    decreases icons.len(),
{
    let init = icons.drop_last();
    if p == icons.len() - 1 {
        assert(icons.remove(p) =~= init);
    } else {
        assert(init[p] == icons[p]);
        lemma_surviving_without(init, dead, p);
        assert(icons.remove(p).drop_last() =~= init.remove(p));
        assert(icons.remove(p).last() == icons.last());
    }
}

/// Where all survive, nothing changes.
proof fn lemma_all_survive(icons: Seq<TrayIcon>, dead: Seq<isize>)
    requires
        forall|i: int| 0 <= i < icons.len() ==> !dead.contains((#[trigger] icons[i]).owner),
    ensures
        surviving_icons(icons, dead) == icons,
    decreases icons.len(),
{
    if icons.len() > 0 {
        let init = icons.drop_last();
        assert forall|i: int| 0 <= i < init.len() implies !dead.contains(
            (#[trigger] init[i]).owner,
        ) by {
            assert(init[i] == icons[i]);
        }
        lemma_all_survive(init, dead);
        assert(icons[icons.len() - 1] == icons.last());
        assert(init.push(icons.last()) =~= icons);
    } else {
        assert(surviving_icons(icons, dead) =~= icons);
    }
}

impl TrayHost {
    /// Forget the icons of dead owners: those whose window is gone without
    /// having taken its icon along.
    pub fn prune(&mut self, dead: &Vec<isize>)
        ensures
            final(self).hosting == old(self).hosting,
            final(self).icons@ == surviving_icons(old(self).icons@, dead@),
            forall|o: isize, u: u32|
                #[trigger] pixels_of(final(self).pixels@, o, u) == if dead@.contains(o) {
                    None
                } else {
                    pixels_of(old(self).pixels@, o, u)
                },
    {
        let mut i: usize = 0;
        while i < self.icons.len()
            invariant
                i <= self.icons@.len(),
                self.hosting == old(self).hosting,
                self.pixels == old(self).pixels,
                surviving_icons(self.icons@, dead@) == surviving_icons(old(self).icons@, dead@),
                forall|k: int| 0 <= k < i ==> !dead@.contains((#[trigger] self.icons@[k]).owner),
            decreases self.icons@.len() - i,
        {
            if contains_handle(dead, self.icons[i].owner) {
                proof {
                    lemma_surviving_without(self.icons@, dead@, i as int);
                }
                let _ = self.icons.remove(i);
            } else {
                i = i + 1;
            }
        }
        proof {
            lemma_all_survive(self.icons@, dead@);
        }
        let mut k: usize = 0;
        while k < self.pixels.len()
            invariant
                k <= self.pixels@.len(),
                self.hosting == old(self).hosting,
                self.icons@ == surviving_icons(old(self).icons@, dead@),
                forall|j: int| 0 <= j < k ==> !dead@.contains((#[trigger] self.pixels@[j]).owner),
                forall|o: isize, u: u32|
                    !dead@.contains(o) ==> #[trigger] pixels_of(self.pixels@, o, u) == pixels_of(
                        old(self).pixels@,
                        o,
                        u,
                    ),
            decreases self.pixels@.len() - k,
        {
            if contains_handle(dead, self.pixels[k].owner) {
                let ghost before = self.pixels@;
                let _ = self.pixels.remove(k);
                proof {
                    assert forall|o: isize, u: u32| !dead@.contains(o) implies #[trigger] pixels_of(
                        self.pixels@,
                        o,
                        u,
                    ) == pixels_of(old(self).pixels@, o, u) by {
                        lemma_other_entry(before, k as int, o, u);
                        assert(pixels_of(before, o, u) == pixels_of(old(self).pixels@, o, u));
                    }
                }
            } else {
                k = k + 1;
            }
        }
        proof {
            assert forall|o: isize, u: u32| dead@.contains(o) implies #[trigger] pixels_of(
                self.pixels@,
                o,
                u,
            ) is None by {
                lemma_no_entry(self.pixels@, o, u);
            }
        }
    }
}

/// A command that is turned down changes neither the registry nor the stored
/// pixels, and asks for nothing to be drawn.
pub proof fn law_rejected_registrations_change_nothing(
    before: TrayHost,
    after: Seq<TrayIcon>,
    cmd: TrayCommand,
    applied: tray::Applied,
    image: Option<Icon>,
    owner: isize,
    uid: u32,
)
    requires
        tray::applies(before.icons@, after, cmd, applied),
        !applied.handled,
    ensures
        after == before.icons@,
        reply_of(before.icons@, after, applied) == (TrayReply {
            handled: false,
            repaint: Repaint::Nothing,
        }),
        pixels_after(before, cmd, applied.handled, image, owner, uid) == pixels_of(
            before.pixels@,
            owner,
            uid,
        ),
{
}

/// After pruning, no icon of a dead owner is left, and no other is gone.
pub proof fn law_pruning_takes_exactly_the_dead(
    icons: Seq<TrayIcon>,
    dead: Seq<isize>,
    t: TrayIcon,
)
    ensures
        surviving_icons(icons, dead).contains(t) <==> icons.contains(t) && !dead.contains(
            t.owner,
        ),
    decreases icons.len(),
{
    if icons.len() > 0 {
        let init = icons.drop_last();
        law_pruning_takes_exactly_the_dead(init, dead, t);
        let kept = surviving_icons(init, dead);
        if icons.contains(t) {
            let i = choose|i: int| 0 <= i < icons.len() && icons[i] == t;
            if i < init.len() {
                assert(init[i] == t);
            }
        }
        if init.contains(t) {
            let i = choose|i: int| 0 <= i < init.len() && init[i] == t;
            assert(icons[i] == t);
        }
        assert(icons[icons.len() - 1] == icons.last());
        let more = kept.push(icons.last());
        if kept.contains(t) {
            let i = choose|i: int| 0 <= i < kept.len() && kept[i] == t;
            assert(more[i] == t);
        }
        assert(more[kept.len() as int] == icons.last());
        if more.contains(t) {
            let i = choose|i: int| 0 <= i < more.len() && more[i] == t;
            if i < kept.len() {
                assert(kept[i] == t);
            }
        }
    }
}

/// Visible icons are counted in their order: the one at a place of the registry
/// that is not hidden is the one with as many visible icons in front of it as its
/// number says, and a hidden one has no number.
pub proof fn law_visible_icons_are_counted_in_order(
    icons: Seq<TrayIcon>,
    p: int,
    n: int,
    t: TrayIcon,
)
    requires
        0 <= p < icons.len(),
    ensures
        visible_count(Seq::empty()) == 0,
        visible_count(icons.push(t)) == visible_count(icons) + if t.hidden {
            0nat
        } else {
            1
        },
        !icons[p].hidden ==> visible_at(icons, visible_count(icons.take(p)) as int) == Some(p),
        icons[p].hidden ==> visible_at(icons, n) != Some(p),
        visible_at(icons, n) is Some <==> 0 <= n < visible_count(icons),
{
    assert(icons.push(t).drop_last() =~= icons);
    assert(icons.push(t).last() == t);
    lemma_visible_at(icons, n);
    if !icons[p].hidden {
        lemma_visible_at_is(icons, p);
    }
}

/// A button going up tells an owner that speaks version 4 what it means as well:
/// the left one a selection, the right one a request for the menu. Every other
/// message, and every older owner, gets the message alone.
pub proof fn law_button_ups_are_spelled_out_for_new_owners(version: u32, msg: u32)
    ensures
        version >= 4 && msg == 0x202 ==> events_of(version, msg) == seq![0x202u32, 0x400],
        version >= 4 && msg == 0x205 ==> events_of(version, msg) == seq![0x205u32, 0x7b],
        version < 4 || (msg != 0x202 && msg != 0x205) ==> events_of(version, msg) == seq![msg],
{
}

/// An image is to be decoded where the record flags one (2), brings one, and the
/// registry does not hold it for that icon already.
pub proof fn law_only_new_images_are_decoded(icons: Seq<TrayIcon>, cmd: TrayCommand, p: int)
    requires
        tray::distinct_icons(icons),
    ensures
        brings_image(icons, cmd) ==> cmd.data.flags & 2 != 0 && cmd.data.hicon != 0,
        0 <= p < icons.len() && icons[p].owner == cmd.data.owner && icons[p].uid == cmd.data.uid
            ==> (brings_image(icons, cmd) <==> cmd.data.flags & 2 != 0 && cmd.data.hicon != 0
            && icons[p].hicon != cmd.data.hicon),
        (forall|i: int|
            0 <= i < icons.len() ==> !((#[trigger] icons[i]).owner == cmd.data.owner && icons[i].uid
                == cmd.data.uid)) ==> (brings_image(icons, cmd) <==> cmd.data.flags & 2 != 0
            && cmd.data.hicon != 0),
{
    let d = cmd.data;
    tray::lemma_icon_index(icons, d.owner, d.uid);
    if 0 <= p < icons.len() && icons[p].owner == d.owner && icons[p].uid == d.uid {
        assert(tray::has_key(icons[p], d.owner, d.uid));
        let q = tray::icon_index(icons, d.owner, d.uid)->0;
        if q != p {
            assert(tray::has_key(icons[q], icons[p].owner, icons[p].uid));
            assert(tray::has_key(icons[p], icons[q].owner, icons[q].uid));
        }
    }
    if tray::icon_index(icons, d.owner, d.uid) is Some {
        let q = tray::icon_index(icons, d.owner, d.uid)->0;
        assert(tray::has_key(icons[q], d.owner, d.uid));
    }
}

/// Pixels are kept icon by icon: what was stored last for an icon is its image. A
/// command that is carried out forgets the image of an icon it deletes (2), stores
/// a new image, and leaves all other images alone.
pub proof fn law_pixels_are_kept_icon_by_icon(
    list: Seq<TrayPixels>,
    entry: TrayPixels,
    host: TrayHost,
    cmd: TrayCommand,
    image: Option<Icon>,
    owner: isize,
    uid: u32,
)
    ensures
        pixels_of(Seq::empty(), owner, uid) is None,
        pixels_of(list.push(entry), entry.owner, entry.uid) == Some(entry.icon),
        owner != entry.owner || uid != entry.uid ==> pixels_of(list.push(entry), owner, uid)
            == pixels_of(list, owner, uid),
        ({
            let its_own = owner == cmd.data.owner && uid == cmd.data.uid;
            &&& !its_own ==> pixels_after(host, cmd, true, image, owner, uid) == pixels_of(
                host.pixels@,
                owner,
                uid,
            )
            &&& its_own && cmd.op == 2 ==> pixels_after(host, cmd, true, image, owner, uid) is None
            &&& its_own && cmd.op != 2 && brings_image(host.icons@, cmd) ==> pixels_after(
                host,
                cmd,
                true,
                image,
                owner,
                uid,
            ) == Some(image)
            &&& its_own && cmd.op != 2 && !brings_image(host.icons@, cmd) ==> pixels_after(
                host,
                cmd,
                true,
                image,
                owner,
                uid,
            ) == pixels_of(host.pixels@, owner, uid)
        }),
{
    assert(list.push(entry).drop_last() =~= list);
    assert(list.push(entry).last() == entry);
}

/// The bars are laid out again exactly where a command changed how many icons are
/// visible, and drawn again where it changed what they look like; the sender is
/// told whether it was carried out.
pub proof fn law_the_bars_follow_what_is_visible(
    before: Seq<TrayIcon>,
    after: Seq<TrayIcon>,
    applied: tray::Applied,
)
    ensures
        reply_of(before, after, applied).handled == applied.handled,
        reply_of(before, after, applied).repaint == Repaint::Relayout <==> visible_count(before)
            != visible_count(after),
        reply_of(before, after, applied).repaint == Repaint::Redraw <==> visible_count(before)
            == visible_count(after) && applied.repaint,
{
}

/// Pruning keeps the icons in their order.
pub proof fn law_pruning_keeps_the_order(
    a: Seq<TrayIcon>,
    b: Seq<TrayIcon>,
    dead: Seq<isize>,
    t: TrayIcon,
)
    ensures
        surviving_icons(a + b, dead) == surviving_icons(a, dead) + surviving_icons(b, dead),
        surviving_icons(seq![t], dead) == if dead.contains(t.owner) {
            Seq::empty()
        } else {
            seq![t]
        },
    decreases b.len(),
{
    let one = seq![t];
    assert(one.drop_last() =~= Seq::<TrayIcon>::empty());
    assert(one.last() == t);
    assert(surviving_icons(one.drop_last(), dead) =~= Seq::<TrayIcon>::empty());
    assert(surviving_icons(one, dead) =~= if dead.contains(t.owner) {
        Seq::empty()
    } else {
        seq![t]
    });
    if b.len() == 0 {
        assert(a + b =~= a);
        assert(surviving_icons(a, dead) + surviving_icons(b, dead) =~= surviving_icons(a, dead));
    } else {
        law_pruning_keeps_the_order(a, b.drop_last(), dead, t);
        assert((a + b).drop_last() =~= a + b.drop_last());
        assert((a + b).last() == b.last());
        assert(surviving_icons(a + b, dead) =~= surviving_icons(a, dead) + surviving_icons(
            b,
            dead,
        ));
    }
}

/// What an owner is posted goes to it, under the callback it asked for, once for
/// each event.
pub proof fn law_owners_are_posted_their_callback(
    post: TrayPost,
    icon: TrayIcon,
    msg: u32,
    x: i32,
    y: i32,
)
    requires
        is_post(post, icon, msg, x, y),
    ensures
        post.owner == icon.owner,
        post.callback == icon.callback,
        post.params@.len() == if icon.version >= 4 && (msg == 0x202 || msg == 0x205) {
            2nat
        } else {
            1
        },
        icon.version < 4 && msg <= 0x7fff_ffff ==> post.params@[0].0 == icon.uid
            && post.params@[0].1 == msg,
        icon.version >= 4 ==> post.params@[0].0 as int % 65536 == x as int % 65536
            && post.params@[0].0 as int / 65536 == y as int % 65536 && post.params@[0].1 as int
            % 65536 == msg as int % 65536,
{
    let numbers = tray::callback_numbers(icon, msg, x as int, y as int);
    assert(events_of(icon.version, msg)[0] == msg);
    assert(post.params@[0].0 == numbers.0 && post.params@[0].1 == numbers.1);
    if icon.version >= 4 {
        let a = x as int % 65536;
        let b = y as int % 65536;
        vstd::arithmetic::div_mod::lemma_fundamental_div_mod_converse(a + b * 65536, 65536, b, a);
        let m = msg as int % 65536;
        let u = icon.uid as int % 65536;
        let v = m + u * 65536;
        if v < 0x8000_0000 {
            vstd::arithmetic::div_mod::lemma_fundamental_div_mod_converse(v, 65536, u, m);
        } else {
            vstd::arithmetic::div_mod::lemma_fundamental_div_mod_converse(
                v - 0x1_0000_0000,
                65536,
                u - 65536,
                m,
            );
        }
    } else if msg <= 0x7fff_ffff {
        assert(msg as isize == msg as int);
    }
}

/// The messages of the mouse buttons by the numbers the system gives them.
pub proof fn law_buttons_have_the_systems_numbers()
    ensures
        WM_LBUTTONDOWN == 0x0201,
        WM_LBUTTONUP == 0x0202,
        WM_RBUTTONDOWN == 0x0204,
        WM_RBUTTONUP == 0x0205,
{
}

} // verus!
