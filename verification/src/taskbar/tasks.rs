//! Bookkeeping for the window-button list: stable ordering, icon pixels and
//! what a click on a button does.
use vstd::prelude::*;

verus! {

/// One taskbar-worthy top-level window.
#[derive(Debug, PartialEq, Eq)]
pub struct TaskWindow {
    /// The window handle as an integer.
    pub hwnd: isize,
    pub title: String,
}

impl Clone for TaskWindow {
    fn clone(&self) -> (r: Self)
        ensures
            r == *self,
    {
        TaskWindow { hwnd: self.hwnd, title: self.title.clone() }
    }
}

/// Whether a window with that handle is in the list.
pub open spec fn listed(windows: Seq<TaskWindow>, hwnd: isize) -> bool {
    exists|i: int| 0 <= i < windows.len() && (#[trigger] windows[i]).hwnd == hwnd
}

/// The first entry of the list for that handle.
pub open spec fn entry_of(windows: Seq<TaskWindow>, hwnd: isize) -> TaskWindow
    decreases windows.len(),
{
    if windows.len() == 0 {
        arbitrary()
    } else if listed(windows.drop_last(), hwnd) {
        entry_of(windows.drop_last(), hwnd)
    } else {
        windows.last()
    }
}

/// The windows of `old` that are still in `fresh`, in their old order, as
/// `fresh` has them.
pub open spec fn survivors(old: Seq<TaskWindow>, fresh: Seq<TaskWindow>) -> Seq<TaskWindow>
    decreases old.len(),
{
    if old.len() == 0 {
        Seq::empty()
    } else {
        let rest = survivors(old.drop_last(), fresh);
        if listed(fresh, old.last().hwnd) {
            rest.push(entry_of(fresh, old.last().hwnd))
        } else {
            rest
        }
    }
}

/// The windows of `list` that are not in `others`, in order.
pub open spec fn missing_from(list: Seq<TaskWindow>, others: Seq<TaskWindow>) -> Seq<TaskWindow>
    decreases list.len(),
{
    if list.len() == 0 {
        Seq::empty()
    } else {
        let rest = missing_from(list.drop_last(), others);
        if listed(others, list.last().hwnd) {
            rest
        } else {
            rest.push(list.last())
        }
    }
}

/// The handles of a list of windows, in order.
pub open spec fn handles(windows: Seq<TaskWindow>) -> Seq<isize> {
    windows.map_values(|w: TaskWindow| w.hwnd)
}

/// Whether no two entries have the same handle.
pub open spec fn distinct_handles(windows: Seq<TaskWindow>) -> bool {
    forall|i: int, j: int|
        0 <= i < j < windows.len() ==> (#[trigger] windows[i]).hwnd != (#[trigger] windows[j]).hwnd
}

/// `entry_of` is the first entry with that handle.
pub proof fn lemma_entry_of(windows: Seq<TaskWindow>, hwnd: isize)
    requires
        listed(windows, hwnd),
    ensures
        exists|i: int|
            #![trigger windows[i]]
            0 <= i < windows.len() && entry_of(windows, hwnd) == windows[i] && windows[i].hwnd
                == hwnd && forall|j: int| 0 <= j < i ==> (#[trigger] windows[j]).hwnd != hwnd,
    decreases windows.len(),
{
    let init = windows.drop_last();
    if listed(init, hwnd) {
        lemma_entry_of(init, hwnd);
        let i = choose|i: int|
            #![trigger init[i]]
            0 <= i < init.len() && entry_of(init, hwnd) == init[i] && init[i].hwnd == hwnd
                && forall|j: int| 0 <= j < i ==> (#[trigger] init[j]).hwnd != hwnd;
        assert(windows[i] == init[i]);
        assert forall|j: int| 0 <= j < i implies (#[trigger] windows[j]).hwnd != hwnd by {
            assert(windows[j] == init[j]);
        }
    } else {
        let last = windows.len() - 1;
        let k = choose|k: int| 0 <= k < windows.len() && (#[trigger] windows[k]).hwnd == hwnd;
        if k < last {
            assert(init[k].hwnd == hwnd);
        }
        assert(windows[last].hwnd == hwnd);
        assert forall|j: int| 0 <= j < last implies (#[trigger] windows[j]).hwnd != hwnd by {
            assert(init[j] == windows[j]);
        }
    }
}

/// The position of the first window with that handle.
fn position_of(windows: &[TaskWindow], hwnd: isize) -> (r: Option<usize>)
    ensures
        r is Some <==> listed(windows@, hwnd),
        r matches Some(i) ==> i < windows@.len() && windows@[i as int] == entry_of(
            windows@,
            hwnd,
        ),
{
    let mut i: usize = 0;
    while i < windows.len()
        invariant
            i <= windows@.len(),
            forall|j: int| 0 <= j < i ==> (#[trigger] windows@[j]).hwnd != hwnd,
        decreases windows@.len() - i,
    {
        if windows[i].hwnd == hwnd {
            proof {
                assert(listed(windows@, hwnd));
                lemma_entry_of(windows@, hwnd);
            }
            return Some(i);
        }
        i = i + 1;
    }
    None
}

/// Whether a window with that handle is in the list.
pub fn is_listed(windows: &Vec<TaskWindow>, hwnd: isize) -> (r: bool)
    ensures
        r == listed(windows@, hwnd),
{
    position_of(windows.as_slice(), hwnd).is_some()
}

/// Merge a fresh enumeration into the current button list, keeping button
/// order stable the way a taskbar should: surviving windows keep their
/// position (with refreshed titles), closed windows drop out, new windows
/// append at the end in enumeration order.
///
/// Returns `(merged, added, removed)`; compare `merged` with the old list to
/// know whether anything (including a title) changed.
pub fn merge(old: &[TaskWindow], fresh: &[TaskWindow]) -> (r: (
    Vec<TaskWindow>,
    Vec<TaskWindow>,
    Vec<TaskWindow>,
))
    ensures
        r.0@ == survivors(old@, fresh@) + missing_from(fresh@, old@),
        r.1@ == missing_from(fresh@, old@),
        r.2@ == missing_from(old@, fresh@),
{
    let mut merged: Vec<TaskWindow> = Vec::with_capacity(fresh.len());
    let mut removed: Vec<TaskWindow> = Vec::new();
    let mut i: usize = 0;
    while i < old.len()
        invariant
            i <= old@.len(),
            merged@ == survivors(old@.take(i as int), fresh@),
            removed@ == missing_from(old@.take(i as int), fresh@),
        decreases old@.len() - i,
    {
        proof {
            assert(old@.take(i + 1).drop_last() =~= old@.take(i as int));
            assert(old@.take(i + 1).last() == old@[i as int]);
        }
        match position_of(fresh, old[i].hwnd) {
            Some(k) => merged.push(fresh[k].clone()),
            None => removed.push(old[i].clone()),
        }
        i = i + 1;
    }
    proof {
        assert(old@.take(old@.len() as int) =~= old@);
    }
    let mut added: Vec<TaskWindow> = Vec::new();
    let mut k: usize = 0;
    while k < fresh.len()
        invariant
            k <= fresh@.len(),
            added@ == missing_from(fresh@.take(k as int), old@),
            merged@ == survivors(old@, fresh@) + added@,
        decreases fresh@.len() - k,
    {
        proof {
            assert(fresh@.take(k + 1).drop_last() =~= fresh@.take(k as int));
            assert(fresh@.take(k + 1).last() == fresh@[k as int]);
        }
        if position_of(old, fresh[k].hwnd).is_none() {
            added.push(fresh[k].clone());
            merged.push(fresh[k].clone());
        }
        k = k + 1;
    }
    proof {
        assert(fresh@.take(fresh@.len() as int) =~= fresh@);
    }
    (merged, added, removed)
}

/// The handles of the survivors are the old handles that are still listed, in
/// the old order.
pub proof fn law_merge_keeps_the_old_order(old: Seq<TaskWindow>, fresh: Seq<TaskWindow>)
    ensures
        handles(survivors(old, fresh)) == handles(old).filter(|h: isize| listed(fresh, h)),
    decreases old.len(),
{
    reveal(Seq::filter);
    if old.len() > 0 {
        law_merge_keeps_the_old_order(old.drop_last(), fresh);
        let h = old.last().hwnd;
        assert(handles(old).drop_last() =~= handles(old.drop_last()));
        assert(handles(old).last() == h);
        if listed(fresh, h) {
            lemma_entry_of(fresh, h);
            assert(handles(survivors(old, fresh)) =~= handles(
                survivors(old.drop_last(), fresh),
            ).push(h));
        }
    }
}

/// An entry of `survivors` is an entry of the fresh list for a window of the
/// old one, and every such window has one.
proof fn lemma_survivors(old: Seq<TaskWindow>, fresh: Seq<TaskWindow>)
    ensures
        forall|i: int|
            #![trigger survivors(old, fresh)[i]]
            0 <= i < survivors(old, fresh).len() ==> {
                let w = survivors(old, fresh)[i];
                listed(old, w.hwnd) && listed(fresh, w.hwnd) && w == entry_of(fresh, w.hwnd)
            },
        forall|h: isize|
            listed(old, h) && listed(fresh, h) ==> #[trigger] listed(survivors(old, fresh), h),
    decreases old.len(),
{
    if old.len() > 0 {
        let init = old.drop_last();
        let rest = survivors(init, fresh);
        let h = old.last().hwnd;
        lemma_survivors(init, fresh);
        if listed(fresh, h) {
            lemma_entry_of(fresh, h);
        }
        let all = survivors(old, fresh);
        assert forall|i: int|
            #![trigger all[i]]
            0 <= i < all.len() implies listed(old, all[i].hwnd) && listed(fresh, all[i].hwnd)
            && all[i] == entry_of(fresh, all[i].hwnd) by {
            if i < rest.len() {
                assert(all[i] == rest[i]);
                let k = choose|k: int|
                    0 <= k < init.len() && (#[trigger] init[k]).hwnd == rest[i].hwnd;
                assert(old[k] == init[k]);
            } else {
                assert(old[old.len() - 1].hwnd == h);
            }
        }
        assert forall|g: isize| listed(old, g) && listed(fresh, g) implies #[trigger] listed(
            all,
            g,
        ) by {
            let k = choose|k: int| 0 <= k < old.len() && (#[trigger] old[k]).hwnd == g;
            if k < init.len() {
                assert(init[k].hwnd == g);
                assert(listed(rest, g));
                let m = choose|m: int| 0 <= m < rest.len() && (#[trigger] rest[m]).hwnd == g;
                assert(all[m] == rest[m]);
            } else {
                assert(all[all.len() - 1].hwnd == g);
            }
        }
    }
}

/// An entry of `missing_from` is an entry of the list for a window the other
/// list has not, and every such window has one.
proof fn lemma_missing_from(list: Seq<TaskWindow>, others: Seq<TaskWindow>)
    ensures
        forall|i: int|
            #![trigger missing_from(list, others)[i]]
            0 <= i < missing_from(list, others).len() ==> {
                let w = missing_from(list, others)[i];
                list.contains(w) && !listed(others, w.hwnd)
            },
        forall|h: isize|
            listed(list, h) && !listed(others, h) ==> #[trigger] listed(
                missing_from(list, others),
                h,
            ),
    decreases list.len(),
{
    if list.len() > 0 {
        let init = list.drop_last();
        let rest = missing_from(init, others);
        let all = missing_from(list, others);
        lemma_missing_from(init, others);
        assert forall|i: int|
            #![trigger all[i]]
            0 <= i < all.len() implies list.contains(all[i]) && !listed(others, all[i].hwnd) by {
            if i < rest.len() {
                assert(all[i] == rest[i]);
                assert(init.contains(rest[i]));
                let k = choose|k: int| 0 <= k < init.len() && init[k] == rest[i];
                assert(list[k] == rest[i]);
            } else {
                assert(list[list.len() - 1] == all[i]);
            }
        }
        assert forall|g: isize| listed(list, g) && !listed(others, g) implies #[trigger] listed(
            all,
            g,
        ) by {
            let k = choose|k: int| 0 <= k < list.len() && (#[trigger] list[k]).hwnd == g;
            if k < init.len() {
                assert(init[k].hwnd == g);
                assert(listed(rest, g));
                let m = choose|m: int| 0 <= m < rest.len() && (#[trigger] rest[m]).hwnd == g;
                assert(all[m] == rest[m]);
            } else {
                assert(all[all.len() - 1].hwnd == g);
            }
        }
    }
}

/// The merged list holds exactly the windows of the fresh enumeration, what is
/// removed is in the old list and no longer in the fresh one, and what is
/// added is in the fresh list and was not in the old one.
pub proof fn law_merge_lists_the_fresh_windows(
    old: Seq<TaskWindow>,
    fresh: Seq<TaskWindow>,
    hwnd: isize,
)
    ensures
        listed(survivors(old, fresh) + missing_from(fresh, old), hwnd) <==> listed(fresh, hwnd),
        listed(missing_from(fresh, old), hwnd) <==> listed(fresh, hwnd) && !listed(old, hwnd),
        listed(missing_from(old, fresh), hwnd) <==> listed(old, hwnd) && !listed(fresh, hwnd),
{
    lemma_survivors(old, fresh);
    lemma_missing_from(fresh, old);
    lemma_missing_from(old, fresh);
    let s = survivors(old, fresh);
    let a = missing_from(fresh, old);
    let r = missing_from(old, fresh);
    let all = s + a;
    if listed(all, hwnd) {
        let i = choose|i: int| 0 <= i < all.len() && (#[trigger] all[i]).hwnd == hwnd;
        if i < s.len() {
            assert(all[i] == s[i]);
        } else {
            assert(all[i] == a[i - s.len()]);
            let k = choose|k: int| 0 <= k < fresh.len() && fresh[k] == all[i];
            assert(fresh[k].hwnd == hwnd);
        }
    }
    if listed(fresh, hwnd) {
        if listed(old, hwnd) {
            assert(listed(s, hwnd));
            let i = choose|i: int| 0 <= i < s.len() && (#[trigger] s[i]).hwnd == hwnd;
            assert(all[i] == s[i]);
        } else {
            assert(listed(a, hwnd));
            let i = choose|i: int| 0 <= i < a.len() && (#[trigger] a[i]).hwnd == hwnd;
            assert(all[s.len() + i] == a[i]);
        }
    }
    if listed(a, hwnd) {
        let i = choose|i: int| 0 <= i < a.len() && (#[trigger] a[i]).hwnd == hwnd;
        let k = choose|k: int| 0 <= k < fresh.len() && fresh[k] == a[i];
        assert(fresh[k].hwnd == hwnd);
    }
    if listed(r, hwnd) {
        let i = choose|i: int| 0 <= i < r.len() && (#[trigger] r[i]).hwnd == hwnd;
        let k = choose|k: int| 0 <= k < old.len() && old[k] == r[i];
        assert(old[k].hwnd == hwnd);
    }
}

/// Merging an enumeration that lists the same windows changes nothing: the
/// list stays as it is, nothing is added and nothing removed.
pub proof fn law_merge_of_an_unchanged_list(windows: Seq<TaskWindow>)
    requires
        distinct_handles(windows),
    ensures
        survivors(windows, windows) + missing_from(windows, windows) == windows,
        missing_from(windows, windows) == Seq::<TaskWindow>::empty(),
{
    lemma_unchanged_prefix(windows, windows.len() as int);
    assert(windows.take(windows.len() as int) =~= windows);
}

proof fn lemma_unchanged_prefix(windows: Seq<TaskWindow>, n: int)
    requires
        distinct_handles(windows),
        0 <= n <= windows.len(),
    ensures
        survivors(windows.take(n), windows) == windows.take(n),
        missing_from(windows.take(n), windows) == Seq::<TaskWindow>::empty(),
    decreases n,
{
    if n > 0 {
        lemma_unchanged_prefix(windows, n - 1);
        let part = windows.take(n);
        assert(part.drop_last() =~= windows.take(n - 1));
        let h = part.last().hwnd;
        assert(windows[n - 1].hwnd == h);
        assert(listed(windows, h));
        lemma_entry_of(windows, h);
        assert(part =~= windows.take(n - 1).push(windows[n - 1]));
    }
}

/// A decoded window icon: premultiplied BGRA, top-down rows, exactly what
/// the renderer uploads. Produced from raw bits by [`build_icon`].
#[derive(Debug, Clone, PartialEq, Eq)]
pub struct Icon {
    pub width: u32,
    pub height: u32,
    pub bgra: Vec<u8>,
}

/// Whether any pixel of the colour plane has a non-zero alpha.
pub open spec fn has_alpha(color: Seq<u8>) -> bool {
    exists|p: int| 0 <= p && 4 * p + 3 < color.len() && #[trigger] color[4 * p + 3] != 0
}

/// The alpha of pixel `p`: its own where the plane has any alpha; otherwise
/// what a mask of the right size says (black opaque, anything else
/// transparent); otherwise opaque.
pub open spec fn pixel_alpha(color: Seq<u8>, mask: Option<Seq<u8>>, p: int) -> u8 {
    if has_alpha(color) {
        color[4 * p + 3]
    } else {
        match mask {
            Some(m) => if m.len() == color.len() {
                if m[4 * p] == 0 && m[4 * p + 1] == 0 && m[4 * p + 2] == 0 {
                    255
                } else {
                    0
                }
            } else {
                255
            },
            None => 255,
        }
    }
}

/// One colour channel premultiplied by an alpha.
pub open spec fn premultiplied(channel: u8, alpha: u8) -> int {
    channel * alpha / 255
}

/// Whether pixel `p` of `out` is the premultiplied pixel of the planes.
pub open spec fn is_pixel_of(
    out: Seq<u8>,
    color: Seq<u8>,
    mask: Option<Seq<u8>>,
    p: int,
) -> bool {
    let a = pixel_alpha(color, mask, p);
    &&& out[4 * p] == premultiplied(color[4 * p], a)
    &&& out[4 * p + 1] == premultiplied(color[4 * p + 1], a)
    &&& out[4 * p + 2] == premultiplied(color[4 * p + 2], a)
    &&& out[4 * p + 3] == a
}

/// The bytes of an optional plane.
pub open spec fn plane(mask: Option<&[u8]>) -> Option<Seq<u8>> {
    match mask {
        Some(m) => Some(m@),
        None => None,
    }
}

/// Premultiply one channel.
fn premultiply(channel: u8, alpha: u8) -> (r: u8)
    ensures
        r == premultiplied(channel, alpha),
{
    proof {
        assert(0 <= channel * alpha <= 255 * 255) by (nonlinear_arith)
            requires
                0 <= channel <= 255,
                0 <= alpha <= 255,
        ;
    }
    ((channel as u32 * alpha as u32) / 255) as u8
}

/// Whether any pixel has a non-zero alpha.
fn any_alpha(color: &Vec<u8>) -> (r: bool)
    requires
        color@.len() % 4 == 0,
    ensures
        r == has_alpha(color@),
{
    let mut at: usize = 0;
    while at < color.len()
        invariant
            at <= color@.len(),
            at % 4 == 0,
            color@.len() % 4 == 0,
            forall|p: int| 0 <= p && 4 * p + 3 < at ==> #[trigger] color@[4 * p + 3] == 0,
        decreases color@.len() - at,
    {
        if color[at + 3] != 0 {
            proof {
                let p = at as int / 4;
                assert(color@[4 * p + 3] != 0);
            }
            return true;
        }
        proof {
            assert forall|p: int| 0 <= p && 4 * p + 3 < at + 4 implies #[trigger] color@[4 * p + 3]
                == 0 by {
                if 4 * p + 3 >= at {
                    assert(4 * p == at);
                }
            }
        }
        at = at + 4;
    }
    false
}

/// Turn raw icon bits into a renderable [`Icon`].
///
/// `color` is the icon's 32bpp BGRA color plane. Icons drawn with a real
/// alpha channel are used as-is; legacy icons carry alpha in a separate
/// AND-mask instead (`mask`, also expanded to 32bpp: white = transparent,
/// black = opaque). If the color plane has no alpha at all and no mask is
/// available, the icon is treated as fully opaque. Output is premultiplied.
pub fn build_icon(width: u32, height: u32, color: Vec<u8>, mask: Option<&[u8]>) -> (r: Option<
    Icon,
>)
    ensures
        r is Some <==> color@.len() == width * height * 4 && color@.len() > 0,
        r matches Some(icon) ==> {
            &&& icon.width == width
            &&& icon.height == height
            &&& icon.bgra@.len() == color@.len()
            &&& forall|p: int|
                0 <= p < width * height ==> #[trigger] is_pixel_of(
                    icon.bgra@,
                    color@,
                    plane(mask),
                    p,
                )
        },
{
    proof {
        assert(0 <= width * height) by (nonlinear_arith)
            requires
                0 <= width,
                0 <= height,
        ;
    }
    let color_len: usize = color.len();
    let area: usize = match (width as usize).checked_mul(height as usize) {
        Some(v) => v,
        None => {
            return None;
        },
    };
    let len: usize = match area.checked_mul(4) {
        Some(v) => v,
        None => {
            return None;
        },
    };
    if len == 0 || color_len != len {
        return None;
    }
    let own_alpha: bool = any_alpha(&color);
    let mut out: Vec<u8> = Vec::with_capacity(len);
    let mut p: usize = 0;
    while p < area
        invariant
            p <= area,
            area == width * height,
            len == area * 4,
            color@.len() == len,
            own_alpha == has_alpha(color@),
            out@.len() == 4 * p,
            forall|q: int| 0 <= q < p ==> #[trigger] is_pixel_of(out@, color@, plane(mask), q),
        decreases area - p,
    {
        let at: usize = 4 * p;
        let alpha: u8 = if own_alpha {
            color[at + 3]
        } else {
            match mask {
                Some(m) => if m.len() == len {
                    if m[at] == 0 && m[at + 1] == 0 && m[at + 2] == 0 {
                        255
                    } else {
                        0
                    }
                } else {
                    255
                },
                None => 255,
            }
        };
        let ghost before = out@;
        out.push(premultiply(color[at], alpha));
        out.push(premultiply(color[at + 1], alpha));
        out.push(premultiply(color[at + 2], alpha));
        out.push(alpha);
        proof {
            assert forall|q: int| 0 <= q < p + 1 implies #[trigger] is_pixel_of(
                out@,
                color@,
                plane(mask),
                q,
            ) by {
                if q < p {
                    assert(is_pixel_of(before, color@, plane(mask), q));
                }
            }
        }
        p = p + 1;
    }
    Some(Icon { width, height, bgra: out })
}

/// A premultiplied channel never exceeds its alpha; opaque pixels keep their
/// channels and transparent ones lose them.
pub proof fn law_premultiplied_channels(channel: u8, alpha: u8)
    ensures
        0 <= premultiplied(channel, alpha) <= alpha,
        premultiplied(channel, alpha) <= channel,
        alpha == 255 ==> premultiplied(channel, alpha) == channel,
        alpha == 0 ==> premultiplied(channel, alpha) == 0,
{
    assert(0 <= channel * alpha <= 255 * alpha && channel * alpha <= 255 * channel)
        by (nonlinear_arith)
        requires
            0 <= channel <= 255,
            0 <= alpha <= 255,
    ;
}

/// What a click on a window's button does. The rules every taskbar follows:
/// clicking the focused window minimizes it, clicking a minimized one brings
/// it back, clicking any other window focuses it.
#[derive(Debug, Clone, Copy, PartialEq, Eq, Structural)]
pub enum ClickAction {
    Minimize,
    RestoreAndFocus,
    Focus,
}

/// The action of a click on the button of a window in that state.
pub fn click_action(is_foreground: bool, is_minimized: bool) -> (r: ClickAction)
    ensures
        is_minimized ==> r == ClickAction::RestoreAndFocus,
        !is_minimized && is_foreground ==> r == ClickAction::Minimize,
        !is_minimized && !is_foreground ==> r == ClickAction::Focus,
{
    if is_minimized {
        ClickAction::RestoreAndFocus
    } else if is_foreground {
        ClickAction::Minimize
    } else {
        ClickAction::Focus
    }
}

/// A merge goes window by window. An old window stays in its place, as the first
/// fresh entry with its handle has it, title included; without such an entry it is
/// gone. A fresh window that is not in the old list goes to the end.
pub proof fn law_merge_goes_window_by_window(
    old: Seq<TaskWindow>,
    fresh: Seq<TaskWindow>,
    w: TaskWindow,
    k: int,
)
    ensures
        survivors(Seq::empty(), fresh).len() == 0,
        missing_from(Seq::empty(), fresh).len() == 0,
        0 <= k < fresh.len() && fresh[k].hwnd == w.hwnd && (forall|j: int|
            0 <= j < k ==> (#[trigger] fresh[j]).hwnd != w.hwnd) ==> {
            &&& survivors(old.push(w), fresh) == survivors(old, fresh).push(fresh[k])
            &&& missing_from(old.push(w), fresh) == missing_from(old, fresh)
        },
        (forall|j: int| 0 <= j < fresh.len() ==> (#[trigger] fresh[j]).hwnd != w.hwnd) ==> {
            &&& survivors(old.push(w), fresh) == survivors(old, fresh)
            &&& missing_from(old.push(w), fresh) == missing_from(old, fresh).push(w)
        },
{
    let all = old.push(w);
    assert(all.drop_last() =~= old);
    assert(all.last() == w);
    if 0 <= k < fresh.len() && fresh[k].hwnd == w.hwnd && (forall|j: int|
        0 <= j < k ==> (#[trigger] fresh[j]).hwnd != w.hwnd) {
        assert(listed(fresh, w.hwnd));
        lemma_entry_of(fresh, w.hwnd);
    }
}

/// What a pixel becomes. Its alpha is its own where any pixel of the icon has one;
/// otherwise it is opaque, but where a mask of the icon's size is not black there.
/// Its channels are scaled by that alpha, rounded down.
pub proof fn law_pixels_are_scaled_by_their_alpha(
    out: Seq<u8>,
    color: Seq<u8>,
    mask: Option<Seq<u8>>,
    p: int,
    q: int,
)
    requires
        is_pixel_of(out, color, mask, p),
        0 <= p,
        4 * p + 3 < color.len(),
        0 <= q,
    ensures
        4 * q + 3 < color.len() && color[4 * q + 3] != 0 ==> out[4 * p + 3] == color[4 * p + 3],
        (forall|k: int| 0 <= k && 4 * k + 3 < color.len() ==> #[trigger] color[4 * k + 3] == 0)
            ==> out[4 * p + 3] == if mask is Some && (mask->0).len() == color.len() && !((mask->0)[4
            * p] == 0 && (mask->0)[4 * p + 1] == 0 && (mask->0)[4 * p + 2] == 0) {
            0u8
        } else {
            255u8
        },
        255 * out[4 * p] <= color[4 * p] * out[4 * p + 3] < 255 * out[4 * p] + 255,
        255 * out[4 * p + 1] <= color[4 * p + 1] * out[4 * p + 3] < 255 * out[4 * p + 1] + 255,
        255 * out[4 * p + 2] <= color[4 * p + 2] * out[4 * p + 3] < 255 * out[4 * p + 2] + 255,
{
    if 4 * q + 3 < color.len() && color[4 * q + 3] != 0 {
        assert(has_alpha(color));
    }
    let a = pixel_alpha(color, mask, p);
    lemma_premultiplied(color[4 * p], a);
    lemma_premultiplied(color[4 * p + 1], a);
    lemma_premultiplied(color[4 * p + 2], a);
}

proof fn lemma_premultiplied(channel: u8, alpha: u8)
    ensures
        255 * premultiplied(channel, alpha) <= channel * alpha < 255 * premultiplied(channel, alpha)
            + 255,
{
    assert(0 <= channel * alpha) by (nonlinear_arith)
        requires
            0 <= channel <= 255,
            0 <= alpha <= 255,
    ;
}

} // verus!
