//! What the start menu lists: the built-in actions and the apps that match what
//! was typed, in groups under headers. A group that a filter empties has no
//! header either.
use vstd::prelude::*;

use crate::taskbar::actions::{self, ActionKind, MenuAction};
use crate::taskbar::apps::{self, AppEntry};
use crate::text;

verus! {

/// A group of entries.
#[derive(Debug, Clone, Copy, PartialEq, Eq, Structural)]
pub enum Group {
    Admin,
    Dev,
    Apps,
}

impl Group {
    /// The text of the group's header.
    pub open spec fn label_text(self) -> Seq<char> {
        match self {
            Group::Admin => "Admin"@,
            Group::Dev => "Dev"@,
            Group::Apps => "Apps"@,
        }
    }

    /// The text of the group's header.
    pub fn label(self) -> (r: &'static str)
        ensures
            r@ == self.label_text(),
    {
        match self {
            Group::Admin => "Admin",
            Group::Dev => "Dev",
            Group::Apps => "Apps",
        }
    }
}

/// One entry of the menu: a header, which cannot be chosen, or an index into the
/// actions or the apps.
#[derive(Debug, Clone, Copy, PartialEq, Eq, Structural)]
pub enum MenuEntry {
    Header(Group),
    Action(usize),
    App(usize),
}

impl MenuEntry {
    /// Whether the entry can be chosen.
    pub open spec fn is_item(self) -> bool {
        !(self is Header)
    }
}

/// The positions a filter leaves of a list: all of them for an empty filter.
pub open spec fn listed(names: Seq<Seq<char>>, filter: Seq<char>) -> Seq<usize> {
    if filter.len() == 0 {
        text::every_position(names.len())
    } else {
        text::matching(names, filter)
    }
}

/// The listed positions are positions of the list, and no more than it has.
pub proof fn lemma_listed(names: Seq<Seq<char>>, filter: Seq<char>)
    requires
        names.len() <= usize::MAX,
    ensures
        listed(names, filter).len() <= names.len(),
        forall|i: int|
            0 <= i < listed(names, filter).len() ==> #[trigger] listed(names, filter)[i]
                < names.len(),
{
    text::lemma_matching(names, filter);
}

/// Of some positions of actions, those of the dev-only actions or of the others,
/// as entries.
pub open spec fn actions_in(
    list: Seq<MenuAction>,
    positions: Seq<usize>,
    dev: bool,
) -> Seq<MenuEntry>
    decreases positions.len(),
{
    if positions.len() == 0 {
        Seq::empty()
    } else {
        let rest = actions_in(list, positions.drop_last(), dev);
        if list[positions.last() as int].dev_only == dev {
            rest.push(MenuEntry::Action(positions.last()))
        } else {
            rest
        }
    }
}

/// Positions of apps, as entries.
pub open spec fn apps_in(positions: Seq<usize>) -> Seq<MenuEntry> {
    positions.map_values(|i: usize| MenuEntry::App(i))
}

/// A group with its header; nothing where the group is empty.
pub open spec fn grouped(group: Group, items: Seq<MenuEntry>) -> Seq<MenuEntry> {
    if items.len() == 0 {
        Seq::empty()
    } else {
        seq![MenuEntry::Header(group)] + items
    }
}

/// Everything the menu lists for a filter.
pub open spec fn content_of(
    list: Seq<MenuAction>,
    names: Seq<Seq<char>>,
    filter: Seq<char>,
) -> Seq<MenuEntry> {
    let hits = listed(actions::labels(list), filter);
    grouped(Group::Admin, actions_in(list, hits, false)) + grouped(
        Group::Dev,
        actions_in(list, hits, true),
    ) + grouped(Group::Apps, apps_in(listed(names, filter)))
}

/// Which entries can be chosen.
pub open spec fn selectable_of(content: Seq<MenuEntry>) -> Seq<bool> {
    content.map_values(|e: MenuEntry| e.is_item())
}

/// Append a group with its header, unless it is empty.
fn push_group(out: &mut Vec<MenuEntry>, group: Group, items: &Vec<MenuEntry>)
    ensures
        final(out)@ == old(out)@ + grouped(group, items@),
{
    let ghost before = out@;
    if items.len() == 0 {
        proof {
            assert(out@ =~= before + grouped(group, items@));
        }
        return;
    }
    out.push(MenuEntry::Header(group));
    let mut i: usize = 0;
    while i < items.len()
        invariant
            i <= items@.len(),
            out@ == before.push(MenuEntry::Header(group)) + items@.take(i as int),
        decreases items@.len() - i,
    {
        out.push(items[i]);
        proof {
            assert(items@.take(i + 1) =~= items@.take(i as int).push(items@[i as int]));
            assert(out@ =~= before.push(MenuEntry::Header(group)) + items@.take(i + 1));
        }
        i = i + 1;
    }
    proof {
        assert(items@.take(items@.len() as int) =~= items@);
        assert(out@ =~= before + grouped(group, items@));
    }
}

/// Of some positions of actions, those of the dev-only actions or of the others.
fn pick_actions(list: &Vec<MenuAction>, positions: &Vec<usize>, dev: bool) -> (r: Vec<MenuEntry>)
    requires
        forall|i: int| 0 <= i < positions@.len() ==> #[trigger] positions@[i] < list@.len(),
    ensures
        r@ == actions_in(list@, positions@, dev),
{
    let mut out: Vec<MenuEntry> = Vec::new();
    let mut i: usize = 0;
    while i < positions.len()
        invariant
            forall|k: int| 0 <= k < positions@.len() ==> #[trigger] positions@[k] < list@.len(),
            i <= positions@.len(),
            out@ == actions_in(list@, positions@.take(i as int), dev),
        decreases positions@.len() - i,
    {
        proof {
            assert(positions@.take(i + 1).drop_last() =~= positions@.take(i as int));
            assert(positions@.take(i + 1).last() == positions@[i as int]);
        }
        let at: usize = positions[i];
        if list[at].dev_only == dev {
            out.push(MenuEntry::Action(at));
        }
        i = i + 1;
    }
    proof {
        assert(positions@.take(positions@.len() as int) =~= positions@);
    }
    out
}

/// Everything the menu lists for a filter: the actions in their groups first,
/// the apps after them.
pub fn build_content(list: &Vec<MenuAction>, apps: &Vec<AppEntry>, filter: &str) -> (r: Vec<
    MenuEntry,
>)
    ensures
        r@ == content_of(list@, apps::names(apps@), filter@),
{
    let hits = actions::filter_indices(list.as_slice(), filter);
    let ghost names = apps::names(apps@);
    proof {
        assert(hits@ == listed(actions::labels(list@), filter@));
        assert(actions::labels(list@).len() == list.len());
        lemma_listed(actions::labels(list@), filter@);
    }
    let mut out: Vec<MenuEntry> = Vec::new();
    let admin = pick_actions(list, &hits, false);
    push_group(&mut out, Group::Admin, &admin);
    let dev = pick_actions(list, &hits, true);
    push_group(&mut out, Group::Dev, &dev);
    let found = apps::filter_indices(apps.as_slice(), filter);
    let mut shown: Vec<MenuEntry> = Vec::new();
    let mut i: usize = 0;
    while i < found.len()
        invariant
            i <= found@.len(),
            shown@ == apps_in(found@.take(i as int)),
        decreases found@.len() - i,
    {
        shown.push(MenuEntry::App(found[i]));
        i = i + 1;
        proof {
            assert(shown@ =~= apps_in(found@.take(i as int)));
        }
    }
    proof {
        assert(found@.take(found@.len() as int) =~= found@);
        assert(found@ == listed(names, filter@));
    }
    push_group(&mut out, Group::Apps, &shown);
    proof {
        assert(out@ =~= content_of(list@, names, filter@));
    }
    out
}

/// Which entries can be chosen.
pub fn selectable(content: &Vec<MenuEntry>) -> (r: Vec<bool>)
    ensures
        r@ == selectable_of(content@),
{
    let mut out: Vec<bool> = Vec::new();
    let mut i: usize = 0;
    while i < content.len()
        invariant
            i <= content@.len(),
            out@ == selectable_of(content@.take(i as int)),
        decreases content@.len() - i,
    {
        out.push(!matches!(content[i], MenuEntry::Header(_)));
        i = i + 1;
        proof {
            assert(out@ =~= selectable_of(content@.take(i as int)));
        }
    }
    proof {
        assert(content@.take(content@.len() as int) =~= content@);
    }
    out
}

/// The symbol an action is marked with.
pub open spec fn symbol_text(kind: ActionKind) -> Seq<char> {
    match kind {
        ActionKind::Restore => "↺"@,
        ActionKind::Settings => "⚙"@,
        ActionKind::Terminal => "❯"@,
        ActionKind::RunTests => "✓"@,
    }
}

/// The symbol an action is marked with.
pub fn symbol(kind: ActionKind) -> (r: &'static str)
    ensures
        r@ == symbol_text(kind),
{
    match kind {
        ActionKind::Restore => "↺",
        ActionKind::Settings => "⚙",
        ActionKind::Terminal => "❯",
        ActionKind::RunTests => "✓",
    }
}

/// Whether every header is followed by an item.
pub open spec fn headers_lead(content: Seq<MenuEntry>) -> bool {
    forall|i: int|
        0 <= i < content.len() && (#[trigger] content[i]) is Header ==> i + 1 < content.len()
            && content[i + 1].is_item()
}

/// Whether every entry is an item.
pub open spec fn all_items(items: Seq<MenuEntry>) -> bool {
    forall|i: int| 0 <= i < items.len() ==> (#[trigger] items[i]).is_item()
}

proof fn lemma_actions_in(list: Seq<MenuAction>, positions: Seq<usize>, dev: bool)
    ensures
        all_items(actions_in(list, positions, dev)),
        actions_in(list, positions, dev).len() <= positions.len(),
        forall|p: usize|
            #[trigger] actions_in(list, positions, dev).contains(MenuEntry::Action(p))
                <==> positions.contains(p) && list[p as int].dev_only == dev,
        forall|p: usize|
            !(#[trigger] actions_in(list, positions, dev).contains(MenuEntry::App(p))),
    decreases positions.len(),
{
    let all = actions_in(list, positions, dev);
    if positions.len() > 0 {
        let init = positions.drop_last();
        let rest = actions_in(list, init, dev);
        let last = positions.last();
        lemma_actions_in(list, init, dev);
        assert forall|p: usize| #[trigger]
            all.contains(MenuEntry::Action(p)) <==> positions.contains(p)
                && list[p as int].dev_only == dev by {
            let e = MenuEntry::Action(p);
            if positions.contains(p) {
                let i = choose|i: int| 0 <= i < positions.len() && positions[i] == p;
                if i < init.len() {
                    assert(init[i] == p);
                } else {
                    assert(p == last);
                }
            }
            if init.contains(p) {
                let i = choose|i: int| 0 <= i < init.len() && init[i] == p;
                assert(positions[i] == p);
            }
            assert(positions[positions.len() - 1] == last);
            if rest.contains(e) {
                let i = choose|i: int| 0 <= i < rest.len() && rest[i] == e;
                assert(all[i] == e);
            }
            if list[last as int].dev_only == dev {
                assert(all[rest.len() as int] == MenuEntry::Action(last));
            }
            if all.contains(e) {
                let i = choose|i: int| 0 <= i < all.len() && all[i] == e;
                if i < rest.len() {
                    assert(rest[i] == e);
                }
            }
        }
        assert forall|p: usize| !(#[trigger] all.contains(MenuEntry::App(p))) by {
            let e = MenuEntry::App(p);
            if all.contains(e) {
                let i = choose|i: int| 0 <= i < all.len() && all[i] == e;
                if i < rest.len() {
                    assert(rest[i] == e);
                    assert(rest.contains(e));
                }
            }
        }
    }
}

proof fn lemma_headers_lead_on(a: Seq<MenuEntry>, b: Seq<MenuEntry>)
    requires
        headers_lead(a),
        headers_lead(b),
    ensures
        headers_lead(a + b),
{
    let all = a + b;
    assert forall|i: int|
        0 <= i < all.len() && (#[trigger] all[i]) is Header implies i + 1 < all.len()
        && all[i + 1].is_item() by {
        if i < a.len() {
            assert(all[i] == a[i]);
            assert(all[i + 1] == a[i + 1]);
        } else {
            assert(all[i] == b[i - a.len()]);
            assert(all[i + 1] == b[i - a.len() + 1]);
        }
    }
}

proof fn lemma_grouped(group: Group, items: Seq<MenuEntry>)
    requires
        all_items(items),
    ensures
        headers_lead(grouped(group, items)),
        grouped(group, items).len() <= items.len() + 1,
        grouped(group, items).len() > 0 ==> grouped(group, items)[0] == MenuEntry::Header(group),
        forall|e: MenuEntry|
            e.is_item() ==> (#[trigger] grouped(group, items).contains(e) <==> items.contains(e)),
{
    let all = grouped(group, items);
    if items.len() > 0 {
        assert forall|i: int|
            0 <= i < all.len() && (#[trigger] all[i]) is Header implies i + 1 < all.len()
            && all[i + 1].is_item() by {
            if i > 0 {
                assert(all[i] == items[i - 1]);
            } else {
                assert(all[1] == items[0]);
            }
        }
        assert forall|e: MenuEntry| e.is_item() implies (#[trigger] all.contains(e)
            <==> items.contains(e)) by {
            if items.contains(e) {
                let i = choose|i: int| 0 <= i < items.len() && items[i] == e;
                assert(all[i + 1] == e);
            }
            if all.contains(e) {
                let i = choose|i: int| 0 <= i < all.len() && all[i] == e;
                assert(items[i - 1] == e);
            }
        }
    }
}

/// What the content is made of: items below headers, in no greater number than
/// there are actions and apps, with every index an index into its list.
pub proof fn lemma_content(list: Seq<MenuAction>, names: Seq<Seq<char>>, filter: Seq<char>)
    requires
        list.len() <= usize::MAX,
        names.len() <= usize::MAX,
    ensures
        headers_lead(content_of(list, names, filter)),
        content_of(list, names, filter).len() <= list.len() + list.len() + names.len() + 3,
        content_of(list, names, filter).len() > 0 ==> content_of(list, names, filter)[0] is Header,
        forall|p: usize|
            #[trigger] content_of(list, names, filter).contains(MenuEntry::Action(p))
                <==> listed(actions::labels(list), filter).contains(p),
        forall|p: usize|
            #[trigger] content_of(list, names, filter).contains(MenuEntry::App(p)) <==> listed(
                names,
                filter,
            ).contains(p),
{
    let hits = listed(actions::labels(list), filter);
    let found = listed(names, filter);
    let admin = actions_in(list, hits, false);
    let dev = actions_in(list, hits, true);
    let shown = apps_in(found);
    lemma_listed(actions::labels(list), filter);
    assert(actions::labels(list).len() == list.len());
    lemma_listed(names, filter);
    lemma_actions_in(list, hits, false);
    lemma_actions_in(list, hits, true);
    assert(all_items(shown));
    lemma_grouped(Group::Admin, admin);
    lemma_grouped(Group::Dev, dev);
    lemma_grouped(Group::Apps, shown);
    let a = grouped(Group::Admin, admin);
    let b = grouped(Group::Dev, dev);
    let c = grouped(Group::Apps, shown);
    lemma_headers_lead_on(a, b);
    lemma_headers_lead_on(a + b, c);
    let all = a + b + c;
    assert forall|e: MenuEntry| e.is_item() implies (#[trigger] all.contains(e) <==> a.contains(e)
        || b.contains(e) || c.contains(e)) by {
        if a.contains(e) {
            let i = choose|i: int| 0 <= i < a.len() && a[i] == e;
            assert(all[i] == e);
        }
        if b.contains(e) {
            let i = choose|i: int| 0 <= i < b.len() && b[i] == e;
            assert(all[a.len() + i] == e);
        }
        if c.contains(e) {
            let i = choose|i: int| 0 <= i < c.len() && c[i] == e;
            assert(all[a.len() + b.len() + i] == e);
        }
        if all.contains(e) {
            let i = choose|i: int| 0 <= i < all.len() && all[i] == e;
            if i < a.len() {
                assert(a[i] == e);
            } else if i < a.len() + b.len() {
                assert(b[i - a.len()] == e);
            } else {
                assert(c[i - a.len() - b.len()] == e);
            }
        }
    }
    assert forall|p: usize| #[trigger]
        all.contains(MenuEntry::Action(p)) <==> hits.contains(p) by {
        let e = MenuEntry::Action(p);
        assert(!shown.contains(e)) by {
            if shown.contains(e) {
                let i = choose|i: int| 0 <= i < shown.len() && shown[i] == e;
                assert(shown[i] == MenuEntry::App(found[i]));
            }
        }
        assert(admin.contains(e) <==> hits.contains(p) && !list[p as int].dev_only);
        assert(dev.contains(e) <==> hits.contains(p) && list[p as int].dev_only);
    }
    assert forall|p: usize| #[trigger] all.contains(MenuEntry::App(p)) <==> found.contains(p) by {
        let e = MenuEntry::App(p);
        assert(!admin.contains(e));
        assert(!dev.contains(e));
        if found.contains(p) {
            let i = choose|i: int| 0 <= i < found.len() && found[i] == p;
            assert(shown[i] == e);
        }
        if shown.contains(e) {
            let i = choose|i: int| 0 <= i < shown.len() && shown[i] == e;
            assert(found[i] == p);
        }
    }
}

/// Where there is nothing to list, nothing is listed.
pub proof fn lemma_nothing_to_list(
    list: Seq<MenuAction>,
    names: Seq<Seq<char>>,
    filter: Seq<char>,
)
    requires
        list.len() == 0,
        names.len() == 0,
    ensures
        content_of(list, names, filter).len() == 0,
{
    lemma_listed(actions::labels(list), filter);
    lemma_listed(names, filter);
}

/// The menu lists an action or an app exactly where the filter leaves it, and a
/// header only right above an item: a filter that empties a group drops its
/// header too.
pub proof fn law_the_menu_lists_what_matches(
    list: Seq<MenuAction>,
    names: Seq<Seq<char>>,
    filter: Seq<char>,
)
    requires
        list.len() <= usize::MAX,
        names.len() <= usize::MAX,
    ensures
        forall|p: usize|
            #[trigger] content_of(list, names, filter).contains(MenuEntry::Action(p))
                <==> listed(actions::labels(list), filter).contains(p),
        forall|p: usize|
            #[trigger] content_of(list, names, filter).contains(MenuEntry::App(p)) <==> listed(
                names,
                filter,
            ).contains(p),
        headers_lead(content_of(list, names, filter)),
{
    lemma_content(list, names, filter);
}

/// The place of an entry in the menu: by its group, the header in front, and by
/// its position in its list.
pub open spec fn place(list: Seq<MenuAction>, e: MenuEntry) -> (int, int) {
    match e {
        MenuEntry::Header(Group::Admin) => (0, -1),
        MenuEntry::Action(p) => (
            if list[p as int].dev_only {
                1
            } else {
                0
            },
            p as int,
        ),
        MenuEntry::Header(Group::Dev) => (1, -1),
        MenuEntry::Header(Group::Apps) => (2, -1),
        MenuEntry::App(p) => (2, p as int),
    }
}

/// Whether every entry has its place before the next.
pub open spec fn in_places(list: Seq<MenuAction>, content: Seq<MenuEntry>) -> bool {
    forall|i: int, j: int|
        0 <= i < j < content.len() ==> {
            let a = place(list, #[trigger] content[i]);
            let b = place(list, #[trigger] content[j]);
            a.0 < b.0 || (a.0 == b.0 && a.1 < b.1)
        }
}

/// Whether every entry is in that group and none is its header.
spec fn items_of(list: Seq<MenuAction>, items: Seq<MenuEntry>, group: int) -> bool {
    forall|i: int|
        0 <= i < items.len() ==> place(list, #[trigger] items[i]).0 == group && place(
            list,
            items[i],
        ).1 >= 0
}

proof fn lemma_actions_in_places(list: Seq<MenuAction>, positions: Seq<usize>, dev: bool)
    requires
        forall|i: int, j: int|
            0 <= i < j < positions.len() ==> #[trigger] positions[i] < #[trigger] positions[j],
    ensures
        in_places(list, actions_in(list, positions, dev)),
        items_of(
            list,
            actions_in(list, positions, dev),
            if dev {
                1
            } else {
                0
            },
        ),
        forall|k: int|
            0 <= k < actions_in(list, positions, dev).len() && positions.len() > 0 ==> place(
                list,
                #[trigger] actions_in(list, positions, dev)[k],
            ).1 <= positions.last(),
    decreases positions.len(),
{
    if positions.len() > 0 {
        let init = positions.drop_last();
        assert forall|i: int, j: int| 0 <= i < j < init.len() implies #[trigger] init[i]
            < #[trigger] init[j] by {
            assert(positions[i] < positions[j]);
        }
        lemma_actions_in_places(list, init, dev);
        let rest = actions_in(list, init, dev);
        let all = actions_in(list, positions, dev);
        assert forall|k: int| 0 <= k < rest.len() implies place(list, #[trigger] rest[k]).1
            < positions.last() by {
            assert(init.len() > 0);
            assert(init.last() == positions[init.len() - 1]);
            assert(positions[init.len() - 1] < positions[positions.len() - 1]);
        }
        assert forall|i: int, j: int| 0 <= i < j < all.len() implies {
            let a = place(list, #[trigger] all[i]);
            let b = place(list, #[trigger] all[j]);
            a.0 < b.0 || (a.0 == b.0 && a.1 < b.1)
        } by {
            assert(all[i] == rest[i]);
            if j < rest.len() {
                assert(all[j] == rest[j]);
            }
        }
        assert forall|k: int| 0 <= k < all.len() implies place(list, #[trigger] all[k]).1
            <= positions.last() by {
            if k < rest.len() {
                assert(all[k] == rest[k]);
            }
        }
    }
}

proof fn lemma_group_in_places(list: Seq<MenuAction>, group: Group, items: Seq<MenuEntry>)
    requires
        in_places(list, items),
        items_of(list, items, place(list, MenuEntry::Header(group)).0),
    ensures
        in_places(list, grouped(group, items)),
        forall|k: int|
            0 <= k < grouped(group, items).len() ==> place(list, #[trigger] grouped(group, items)[k]).0
                == place(list, MenuEntry::Header(group)).0,
{
    let all = grouped(group, items);
    if items.len() > 0 {
        assert forall|k: int| 0 <= k < all.len() implies place(list, #[trigger] all[k]).0 == place(
            list,
            MenuEntry::Header(group),
        ).0 by {
            if k > 0 {
                assert(all[k] == items[k - 1]);
            }
        }
        assert forall|i: int, j: int| 0 <= i < j < all.len() implies {
            let a = place(list, #[trigger] all[i]);
            let b = place(list, #[trigger] all[j]);
            a.0 < b.0 || (a.0 == b.0 && a.1 < b.1)
        } by {
            assert(all[j] == items[j - 1]);
            if i > 0 {
                assert(all[i] == items[i - 1]);
            }
        }
    }
}

proof fn lemma_listed_in_order(names: Seq<Seq<char>>, filter: Seq<char>)
    requires
        names.len() <= usize::MAX,
    ensures
        forall|i: int, j: int|
            0 <= i < j < listed(names, filter).len() ==> #[trigger] listed(names, filter)[i]
                < #[trigger] listed(names, filter)[j],
{
    text::law_a_filter_finds_every_occurrence(names, filter);
}

/// The menu goes group by group: the admin actions, the dev actions, the apps, each
/// under its header and in the order of its list, and nothing is listed twice.
pub proof fn law_the_menu_goes_group_by_group(
    list: Seq<MenuAction>,
    names: Seq<Seq<char>>,
    filter: Seq<char>,
)
    requires
        list.len() <= usize::MAX,
        names.len() <= usize::MAX,
    ensures
        in_places(list, content_of(list, names, filter)),
{
    let labels = actions::labels(list);
    let hits = listed(labels, filter);
    let found = listed(names, filter);
    lemma_listed_in_order(labels, filter);
    lemma_listed_in_order(names, filter);
    lemma_actions_in_places(list, hits, false);
    lemma_actions_in_places(list, hits, true);
    let apps = apps_in(found);
    assert(in_places(list, apps)) by {
        assert forall|i: int, j: int| 0 <= i < j < apps.len() implies {
            let a = place(list, #[trigger] apps[i]);
            let b = place(list, #[trigger] apps[j]);
            a.0 < b.0 || (a.0 == b.0 && a.1 < b.1)
        } by {
            assert(found[i] < found[j]);
        }
    }
    let a = grouped(Group::Admin, actions_in(list, hits, false));
    let b = grouped(Group::Dev, actions_in(list, hits, true));
    let c = grouped(Group::Apps, apps);
    lemma_group_in_places(list, Group::Admin, actions_in(list, hits, false));
    lemma_group_in_places(list, Group::Dev, actions_in(list, hits, true));
    lemma_group_in_places(list, Group::Apps, apps);
    let all = a + b + c;
    assert forall|i: int, j: int| 0 <= i < j < all.len() implies {
        let x = place(list, #[trigger] all[i]);
        let y = place(list, #[trigger] all[j]);
        x.0 < y.0 || (x.0 == y.0 && x.1 < y.1)
    } by {
        let n = a.len() as int;
        let m = (a.len() + b.len()) as int;
        if i < n {
            assert(all[i] == a[i]);
        } else if i < m {
            assert(all[i] == b[i - n]);
        } else {
            assert(all[i] == c[i - m]);
        }
        if j < n {
            assert(all[j] == a[j]);
        } else if j < m {
            assert(all[j] == b[j - n]);
        } else {
            assert(all[j] == c[j - m]);
        }
    }
}

/// The menu lists every action and every app that the filter occurs in, in lower
/// case and anywhere in the label or the name, and no other; all of them where
/// nothing was typed.
pub proof fn law_the_menu_lists_what_the_filter_occurs_in(
    list: Seq<MenuAction>,
    names: Seq<Seq<char>>,
    filter: Seq<char>,
    p: usize,
)
    requires
        list.len() <= usize::MAX,
        names.len() <= usize::MAX,
    ensures
        content_of(list, names, filter).contains(MenuEntry::Action(p)) <==> p < list.len() && (
        filter.len() == 0 || exists|a: Seq<char>, b: Seq<char>|
            text::lowercase(list[p as int].label@) == #[trigger] (a + text::lowercase(filter) + b)),
        content_of(list, names, filter).contains(MenuEntry::App(p)) <==> p < names.len() && (
        filter.len() == 0 || exists|a: Seq<char>, b: Seq<char>|
            text::lowercase(names[p as int]) == #[trigger] (a + text::lowercase(filter) + b)),
{
    lemma_content(list, names, filter);
    let labels = actions::labels(list);
    lemma_listed_by_occurrence(labels, filter, p);
    lemma_listed_by_occurrence(names, filter, p);
    if p < list.len() {
        assert(labels[p as int] == list[p as int].label@);
    }
}

proof fn lemma_listed_by_occurrence(names: Seq<Seq<char>>, filter: Seq<char>, p: usize)
    requires
        names.len() <= usize::MAX,
    ensures
        listed(names, filter).contains(p) <==> p < names.len() && (filter.len() == 0 || exists|
            a: Seq<char>,
            b: Seq<char>,
        |
            text::lowercase(names[p as int]) == #[trigger] (a + text::lowercase(filter) + b)),
{
    text::law_a_filter_finds_every_occurrence(names, filter);
    let all = listed(names, filter);
    if filter.len() == 0 {
        if p < names.len() {
            assert(all[p as int] == p);
        }
    } else if p < names.len() && exists|a: Seq<char>, b: Seq<char>|
        text::lowercase(names[p as int]) == #[trigger] (a + text::lowercase(filter) + b) {
        let (a, b) = choose|a: Seq<char>, b: Seq<char>|
            text::lowercase(names[p as int]) == #[trigger] (a + text::lowercase(filter) + b);
        assert(text::matching(names, filter).contains(p));
    }
}

/// The headers and the marks of the actions.
pub proof fn law_groups_and_actions_are_marked(group: Group, kind: ActionKind)
    ensures
        group.label_text() == match group {
            Group::Admin => "Admin"@,
            Group::Dev => "Dev"@,
            Group::Apps => "Apps"@,
        },
        symbol_text(kind) == match kind {
            ActionKind::Restore => "↺"@,
            ActionKind::Settings => "⚙"@,
            ActionKind::Terminal => "❯"@,
            ActionKind::RunTests => "✓"@,
        },
{
}

/// Everything but a header can be chosen.
pub proof fn law_only_headers_cannot_be_chosen(content: Seq<MenuEntry>, i: int)
    requires
        0 <= i < content.len(),
    ensures
        selectable_of(content).len() == content.len(),
        selectable_of(content)[i] <==> !(content[i] matches MenuEntry::Header(g)),
{
}

} // verus!
