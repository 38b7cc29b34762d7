//! Start-menu application discovery: from the files met in the Start Menu
//! `Programs` folders to the flat, sorted list the menu shows.
use vstd::prelude::*;

use crate::paths;
use crate::text;

verus! {

/// How deep below a root folders are entered. Links are not followed, so this
/// is only a backstop against pathologically deep trees.
pub const MAX_DEPTH: usize = 8;

/// One launchable Start Menu entry.
#[derive(Debug, Clone, Eq)]
pub struct AppEntry {
    /// Display name: the shortcut's file stem.
    pub name: String,
    /// Full path of the shortcut, opened like a double-click.
    pub path: String,
}

/// An entry as a value.
#[verifier::ext_equal]
pub ghost struct AppModel {
    pub name: Seq<char>,
    pub path: Seq<char>,
}

impl View for AppEntry {
    type V = AppModel;

    open spec fn view(&self) -> AppModel {
        AppModel { name: self.name@, path: self.path@ }
    }
}

/// Whether two entries are the same: the same name, and the same path however it
/// is written.
pub open spec fn same_app(a: AppModel, b: AppModel) -> bool {
    a.name == b.name && paths::same_path(a.path, b.path)
}

impl PartialEq for AppEntry {
    fn eq(&self, other: &Self) -> (r: bool) {
        text::same_text(self.name.as_str(), other.name.as_str()) && paths::same(
            self.path.as_str(),
            other.path.as_str(),
        )
    }
}

impl vstd::std_specs::cmp::PartialEqSpecImpl for AppEntry {
    open spec fn obeys_eq_spec() -> bool {
        true
    }

    open spec fn eq_spec(&self, other: &Self) -> bool {
        same_app(self@, other@)
    }
}

/// The values of a list of entries.
pub open spec fn app_models(apps: Seq<AppEntry>) -> Seq<AppModel> {
    apps.map_values(|a: AppEntry| a@)
}

/// The `Programs` folder below a data directory.
pub open spec fn programs_below(base: Seq<char>) -> Seq<char> {
    paths::below(
        paths::below(paths::below(paths::below(base, "Microsoft"@), "Windows"@), "Start Menu"@),
        "Programs"@,
    )
}

fn programs_folder(base: &str) -> (r: String)
    ensures
        r@ == programs_below(base@),
{
    let a = paths::join(base, "Microsoft");
    let b = paths::join(a.as_str(), "Windows");
    let c = paths::join(b.as_str(), "Start Menu");
    paths::join(c.as_str(), "Programs")
}

/// The `Programs` folders of the data directories that are known, user first.
pub open spec fn root_texts(
    appdata: Option<Seq<char>>,
    program_data: Option<Seq<char>>,
) -> Seq<Seq<char>> {
    let user = match appdata {
        Some(base) => seq![programs_below(base)],
        None => Seq::empty(),
    };
    match program_data {
        Some(base) => user.push(programs_below(base)),
        None => user,
    }
}

/// The `Programs` roots to merge, user first: user entries shadow machine
/// entries with the same relative path. A data directory that is not known
/// (`%APPDATA%`, `%ProgramData%`) has no root.
pub fn roots(appdata: Option<&str>, program_data: Option<&str>) -> (r: Vec<String>)
    ensures
        text::texts(r@) == root_texts(
            match appdata {
                Some(s) => Some(s@),
                None => None,
            },
            match program_data {
                Some(s) => Some(s@),
                None => None,
            },
        ),
{
    let mut out: Vec<String> = Vec::new();
    if let Some(base) = appdata {
        out.push(programs_folder(base));
    }
    if let Some(base) = program_data {
        out.push(programs_folder(base));
    }
    proof {
        let expected = root_texts(
            match appdata {
                Some(s) => Some(s@),
                None => None,
            },
            match program_data {
                Some(s) => Some(s@),
                None => None,
            },
        );
        assert(text::texts(out@) =~= expected);
    }
    out
}

/// Whether a folder met at that depth (0 for a root's own children) is entered.
pub fn enters(depth: usize) -> (r: bool)
    ensures
        r == (depth < MAX_DEPTH),
{
    depth < MAX_DEPTH
}

/// A file met on the walk through the roots: its full path, and its path
/// relative to the root it was met below.
#[derive(Debug, Clone, PartialEq, Eq)]
pub struct FoundFile {
    pub path: String,
    pub relative: String,
}

/// The position of the last dot of a file name, or -1 without one.
pub open spec fn last_dot(name: Seq<char>) -> int
    decreases name.len(),
{
    if name.len() == 0 {
        -1
    } else if name.last() == '.' {
        name.len() - 1
    } else {
        last_dot(name.drop_last())
    }
}

/// Whether a file name has an extension: a dot that is not its first character.
pub open spec fn has_extension(name: Seq<char>) -> bool {
    last_dot(name) > 0
}

/// Whether a file name is a shortcut's: its extension is `lnk` or `url`, in any
/// case.
pub open spec fn is_shortcut_name(name: Seq<char>) -> bool {
    has_extension(name) && {
        let extension = name.skip(last_dot(name) + 1);
        text::same_ignoring_case(extension, "lnk"@) || text::same_ignoring_case(
            extension,
            "url"@,
        )
    }
}

/// The entry a file stands for, if it is a shortcut.
pub open spec fn shortcut_of(f: FoundFile) -> Option<AppModel> {
    let name = paths::file_name_of(f.path@);
    if is_shortcut_name(name) {
        Some(AppModel { name: name.take(last_dot(name)), path: f.path@ })
    } else {
        None
    }
}

/// What two files have in common where one shadows the other: the relative
/// path, in lower case.
pub open spec fn shadow_key(f: FoundFile) -> Seq<char> {
    text::lowercase(f.relative@)
}

/// Whether some shortcut of the list has that key.
pub open spec fn key_taken(found: Seq<FoundFile>, key: Seq<char>) -> bool {
    exists|i: int|
        0 <= i < found.len() && shortcut_of(#[trigger] found[i]) is Some && shadow_key(found[i])
            == key
}

/// The entries of the shortcuts met, without those that are shadowed by an
/// earlier one.
pub open spec fn unshadowed(found: Seq<FoundFile>) -> Seq<AppModel>
    decreases found.len(),
{
    if found.len() == 0 {
        Seq::empty()
    } else {
        let rest = unshadowed(found.drop_last());
        let f = found.last();
        if shortcut_of(f) is Some && !key_taken(found.drop_last(), shadow_key(f)) {
            rest.push(shortcut_of(f)->0)
        } else {
            rest
        }
    }
}

/// The order of the menu: by name in lower case, then by path, component by
/// component.
pub open spec fn goes_before(a: AppModel, b: AppModel) -> bool {
    let x = text::lowercase(a.name);
    let y = text::lowercase(b.name);
    text::comes_before(x, y) || (x == y && paths::path_before(a.path, b.path))
}

/// A sorted list with one more entry, behind those that are not after it.
pub open spec fn inserted(list: Seq<AppModel>, e: AppModel) -> Seq<AppModel>
    decreases list.len(),
{
    if list.len() > 0 && goes_before(e, list.last()) {
        inserted(list.drop_last(), e).push(list.last())
    } else {
        list.push(e)
    }
}

/// A list in menu order; entries that compare equal keep their order.
pub open spec fn in_menu_order(list: Seq<AppModel>) -> Seq<AppModel>
    decreases list.len(),
{
    if list.len() == 0 {
        Seq::empty()
    } else {
        inserted(in_menu_order(list.drop_last()), list.last())
    }
}

/// Whether `a` goes before `b` in the menu.
fn sorts_before(a: &AppEntry, b: &AppEntry) -> (r: bool)
    ensures
        r == goes_before(a@, b@),
{
    let x = text::chars_of(a.name.as_str().to_lowercase().as_str());
    let y = text::chars_of(b.name.as_str().to_lowercase().as_str());
    if text::precedes(&x, &y) {
        return true;
    }
    if text::precedes(&y, &x) {
        proof {
            text::lemma_text_order(x@, y@, x@);
            text::lemma_text_order(y@, x@, y@);
        }
        return false;
    }
    proof {
        text::lemma_text_order(x@, y@, x@);
    }
    paths::precedes(a.path.as_str(), b.path.as_str())
}

proof fn lemma_last_dot(name: Seq<char>)
    ensures
        -1 <= last_dot(name) < name.len(),
    decreases name.len(),
{
    if name.len() > 0 && name.last() != '.' {
        lemma_last_dot(name.drop_last());
    }
}

/// The entry a file stands for, if it is a shortcut.
fn shortcut(f: &FoundFile) -> (r: Option<AppEntry>)
    ensures
        r is Some <==> shortcut_of(*f) is Some,
        r matches Some(app) ==> app@ == shortcut_of(*f)->0,
{
    let name = paths::file_name(f.path.as_str());
    let chars = text::chars_of(name.as_str());
    let n: usize = chars.len();
    let mut after: usize = n;
    proof {
        assert(chars@.take(n as int) =~= chars@);
        lemma_last_dot(chars@);
    }
    while after > 0 && chars[after - 1] != '.'
        invariant
            after <= n,
            n == chars@.len(),
            last_dot(chars@.take(after as int)) == last_dot(chars@),
        decreases after,
    {
        proof {
            assert(chars@.take(after as int).drop_last() =~= chars@.take(after - 1));
            assert(chars@.take(after as int).last() == chars@[after - 1]);
        }
        after = after - 1;
    }
    proof {
        if after > 0 {
            assert(chars@.take(after as int).last() == chars@[after - 1]);
        }
        assert(last_dot(chars@) == after - 1);
    }
    if after < 2 {
        return None;
    }
    let extension = text::string_of(&chars, after, n);
    proof {
        assert(chars@.subrange(after as int, n as int) =~= chars@.skip(after as int));
        assert(chars@.subrange(0, after - 1) =~= chars@.take(after - 1));
    }
    if text::eq_ignore_case(extension.as_str(), "lnk") || text::eq_ignore_case(
        extension.as_str(),
        "url",
    ) {
        Some(AppEntry { name: text::string_of(&chars, 0, after - 1), path: f.path.clone() })
    } else {
        None
    }
}

/// Put an entry in its place of a list in menu order.
fn insert_app(list: &mut Vec<AppEntry>, e: AppEntry)
    ensures
        app_models(final(list)@) == inserted(app_models(old(list)@), e@),
{
    let mut at: usize = list.len();
    let ghost models = app_models(list@);
    proof {
        assert(models.take(at as int) =~= models);
        assert(models.skip(at as int) =~= Seq::<AppModel>::empty());
        assert(inserted(models, e@) + Seq::<AppModel>::empty() =~= inserted(models, e@));
    }
    while at > 0 && sorts_before(&e, &list[at - 1])
        invariant
            at <= list@.len(),
            list@ == old(list)@,
            models == app_models(list@),
            inserted(models, e@) == inserted(models.take(at as int), e@) + models.skip(at as int),
        decreases at,
    {
        proof {
            let head = models.take(at as int);
            assert(head.drop_last() =~= models.take(at - 1));
            assert(head.last() == models[at - 1]);
            assert(models.skip(at - 1) =~= seq![models[at - 1]] + models.skip(at as int));
            assert(inserted(head, e@) == inserted(models.take(at - 1), e@).push(models[at - 1]));
            assert(inserted(models.take(at - 1), e@).push(models[at - 1]) + models.skip(at as int)
                =~= inserted(models.take(at - 1), e@) + models.skip(at - 1));
        }
        at = at - 1;
    }
    proof {
        let head = models.take(at as int);
        if at > 0 {
            assert(head.last() == models[at - 1]);
        }
        assert(inserted(head, e@) == head.push(e@));
        assert(app_models(list@.insert(at as int, e)) =~= head.push(e@) + models.skip(at as int));
    }
    list.insert(at, e);
}

/// Merge the files met on a walk through the roots, in the order of the walk
/// (earlier roots win on duplicate relative paths), into the list of shortcuts,
/// sorted by name case-insensitively.
pub fn scan(found: &Vec<FoundFile>) -> (r: Vec<AppEntry>)
    ensures
        app_models(r@) == in_menu_order(unshadowed(found@)),
{
    let mut seen: Vec<String> = Vec::new();
    let mut out: Vec<AppEntry> = Vec::new();
    let mut i: usize = 0;
    proof {
        assert(app_models(out@) =~= in_menu_order(unshadowed(found@.take(0))));
    }
    while i < found.len()
        invariant
            i <= found@.len(),
            app_models(out@) == in_menu_order(unshadowed(found@.take(i as int))),
            forall|key: Seq<char>|
                #![trigger text::texts(seen@).contains(key)]
                text::texts(seen@).contains(key) <==> key_taken(found@.take(i as int), key),
        decreases found@.len() - i,
    {
        let f = &found[i];
        let ghost init = found@.take(i as int);
        let ghost next = found@.take(i + 1);
        proof {
            assert(next.drop_last() =~= init);
            assert(next.last() == *f);
        }
        let ghost before = text::texts(seen@);
        if let Some(app) = shortcut(f) {
            let key = f.relative.as_str().to_lowercase();
            if !text::contains_text(&seen, key.as_str()) {
                proof {
                    assert(unshadowed(next) == unshadowed(init).push(app@));
                    assert(unshadowed(next).drop_last() =~= unshadowed(init));
                    assert(text::texts(seen@.push(key)) =~= before.push(key@));
                }
                seen.push(key);
                insert_app(&mut out, app);
            }
        }
        proof {
            assert forall|key: Seq<char>|
                #![trigger text::texts(seen@).contains(key)]
                text::texts(seen@).contains(key) <==> key_taken(next, key) by {
                lemma_key_taken_push(init, *f, key);
                assert(next =~= init.push(*f));
                lemma_push_key(before, shadow_key(*f), key);
                assert(before.contains(key) <==> key_taken(init, key));
                assert(before.contains(shadow_key(*f)) <==> key_taken(init, shadow_key(*f)));
            }
        }
        i = i + 1;
    }
    proof {
        assert(found@.take(found@.len() as int) =~= found@);
    }
    out
}

proof fn lemma_push_key(s: Seq<Seq<char>>, x: Seq<char>, p: Seq<char>)
    ensures
        s.push(x).contains(p) <==> s.contains(p) || p == x,
{
    if s.contains(p) {
        let m = choose|m: int| 0 <= m < s.len() && s[m] == p;
        assert(s.push(x)[m] == p);
    }
    if p == x {
        assert(s.push(x)[s.len() as int] == p);
    }
}

proof fn lemma_key_taken_push(found: Seq<FoundFile>, f: FoundFile, key: Seq<char>)
    ensures
        key_taken(found.push(f), key) <==> key_taken(found, key) || (shortcut_of(f) is Some
            && shadow_key(f) == key),
{
    let all = found.push(f);
    if key_taken(found, key) {
        let i = choose|i: int|
            0 <= i < found.len() && shortcut_of(#[trigger] found[i]) is Some && shadow_key(found[i])
                == key;
        assert(all[i] == found[i]);
    }
    if shortcut_of(f) is Some && shadow_key(f) == key {
        assert(all[found.len() as int] == f);
    }
    if key_taken(all, key) {
        let i = choose|i: int|
            0 <= i < all.len() && shortcut_of(#[trigger] all[i]) is Some && shadow_key(all[i])
                == key;
        if i < found.len() {
            assert(found[i] == all[i]);
        }
    }
}

/// The names of a list of entries.
pub open spec fn names(apps: Seq<AppEntry>) -> Seq<Seq<char>> {
    apps.map_values(|a: AppEntry| a.name@)
}

/// Indices into `apps` whose names match `filter`: case-insensitive substring,
/// empty matches everything.
pub fn filter_indices(apps: &[AppEntry], filter: &str) -> (r: Vec<usize>)
    ensures
        r@ == text::matching(names(apps@), filter@),
        filter@.len() == 0 ==> r@ == text::every_position(apps@.len()),
{
    let needle = filter.to_lowercase();
    let mut out: Vec<usize> = Vec::new();
    let mut i: usize = 0;
    let ghost all = names(apps@);
    while i < apps.len()
        invariant
            i <= apps@.len(),
            all == names(apps@),
            needle@ == text::lowercase(filter@),
            filter@.len() == 0 ==> needle@.len() == 0,
            out@ == text::matching(all.take(i as int), filter@),
        decreases apps@.len() - i,
    {
        proof {
            assert(all.take(i + 1).drop_last() =~= all.take(i as int));
            assert(all.take(i + 1).last() == apps@[i as int].name@);
        }
        if text::matches_lowered(apps[i].name.as_str(), needle.as_str()) {
            out.push(i);
        }
        i = i + 1;
    }
    proof {
        assert(all.take(all.len() as int) =~= all);
        if filter@.len() == 0 {
            text::lemma_everything_matches(all, filter@);
        }
    }
    out
}

/// Whether a list is in menu order.
pub open spec fn is_in_menu_order(list: Seq<AppModel>) -> bool {
    forall|i: int, j: int|
        0 <= i < j < list.len() ==> !goes_before(#[trigger] list[j], #[trigger] list[i])
}

proof fn lemma_menu_order_transitive(a: AppModel, b: AppModel, c: AppModel)
    requires
        !goes_before(b, a),
        !goes_before(c, b),
    ensures
        !goes_before(c, a),
{
    let x = text::lowercase(a.name);
    let y = text::lowercase(b.name);
    let z = text::lowercase(c.name);
    text::lemma_text_order(x, y, z);
    text::lemma_text_order(y, z, x);
    text::lemma_text_order(z, x, y);
    text::lemma_text_order(z, y, x);
    text::lemma_text_order(y, x, z);
    let p = paths::components_of(a.path);
    let q = paths::components_of(b.path);
    let r = paths::components_of(c.path);
    paths::lemma_parts_order(p, q, r);
    paths::lemma_parts_order(q, r, p);
    paths::lemma_parts_order(r, p, q);
    paths::lemma_parts_order(r, q, p);
    paths::lemma_parts_order(q, p, r);
}

proof fn lemma_inserted(list: Seq<AppModel>, e: AppModel)
    requires
        is_in_menu_order(list),
    ensures
        is_in_menu_order(inserted(list, e)),
        inserted(list, e).to_multiset() == list.to_multiset().insert(e),
        forall|k: int|
            0 <= k < inserted(list, e).len() ==> #[trigger] inserted(list, e)[k] == e
                || list.contains(inserted(list, e)[k]),
    decreases list.len(),
{
    broadcast use vstd::seq_lib::group_to_multiset_ensures;

    let r = inserted(list, e);
    if list.len() > 0 && goes_before(e, list.last()) {
        let init = list.drop_last();
        assert(is_in_menu_order(init)) by {
            assert forall|i: int, j: int| 0 <= i < j < init.len() implies !goes_before(
                #[trigger] init[j],
                #[trigger] init[i],
            ) by {
                assert(init[i] == list[i] && init[j] == list[j]);
            }
        }
        lemma_inserted(init, e);
        let head = inserted(init, e);
        let last = list.last();
        assert(list =~= init.push(last));
        assert forall|i: int, j: int| 0 <= i < j < r.len() implies !goes_before(
            #[trigger] r[j],
            #[trigger] r[i],
        ) by {
            if j < head.len() {
                assert(r[i] == head[i] && r[j] == head[j]);
            } else {
                assert(r[i] == head[i]);
                assert(r[j] == last);
                if head[i] == e {
                    lemma_irreflexive(e, last);
                } else {
                    assert(init.contains(head[i]));
                    let k = choose|k: int| 0 <= k < init.len() && init[k] == head[i];
                    assert(list[k] == head[i]);
                    assert(list[list.len() - 1] == last);
                }
            }
        }
        assert forall|k: int| 0 <= k < r.len() implies #[trigger] r[k] == e || list.contains(r[k])
        by {
            if k < head.len() {
                assert(r[k] == head[k]);
                if head[k] != e {
                    assert(init.contains(head[k]));
                    let m = choose|m: int| 0 <= m < init.len() && init[m] == head[k];
                    assert(list[m] == head[k]);
                }
            } else {
                assert(list[list.len() - 1] == last);
            }
        }
        assert(r.to_multiset() =~= list.to_multiset().insert(e));
    } else {
        assert forall|i: int, j: int| 0 <= i < j < r.len() implies !goes_before(
            #[trigger] r[j],
            #[trigger] r[i],
        ) by {
            if j < list.len() {
                assert(r[i] == list[i] && r[j] == list[j]);
            } else {
                assert(r[i] == list[i]);
                assert(!goes_before(e, list.last()));
                if i < list.len() - 1 {
                    assert(!goes_before(list[list.len() - 1], list[i]));
                    lemma_menu_order_transitive(list[i], list.last(), e);
                }
            }
        }
        assert forall|k: int| 0 <= k < r.len() implies #[trigger] r[k] == e || list.contains(r[k])
        by {
            if k < list.len() {
                assert(list[k] == r[k]);
            }
        }
        assert(r.to_multiset() =~= list.to_multiset().insert(e));
    }
}

proof fn lemma_irreflexive(a: AppModel, b: AppModel)
    requires
        goes_before(a, b),
    ensures
        !goes_before(b, a),
{
    text::lemma_text_order(text::lowercase(a.name), text::lowercase(b.name), text::lowercase(a.name));
    text::lemma_text_order(text::lowercase(b.name), text::lowercase(a.name), text::lowercase(b.name));
    let p = paths::components_of(a.path);
    let q = paths::components_of(b.path);
    paths::lemma_parts_order(p, q, p);
}

/// The menu lists exactly the entries that are not shadowed, in menu order.
pub proof fn law_menu_is_sorted_and_complete(list: Seq<AppModel>)
    ensures
        is_in_menu_order(in_menu_order(list)),
        in_menu_order(list).to_multiset() == list.to_multiset(),
    decreases list.len(),
{
    broadcast use vstd::seq_lib::group_to_multiset_ensures;

    if list.len() > 0 {
        let init = list.drop_last();
        law_menu_is_sorted_and_complete(init);
        lemma_inserted(in_menu_order(init), list.last());
        assert(list =~= init.push(list.last()));
        assert(in_menu_order(list).to_multiset() =~= list.to_multiset());
    }
}

/// A shortcut with the same relative path as an earlier one, in whatever case,
/// might as well not be there: the earlier root wins.
pub proof fn law_earlier_roots_shadow_later_ones(found: Seq<FoundFile>, i: int, j: int)
    requires
        0 <= i < j < found.len(),
        shortcut_of(found[i]) is Some,
        shortcut_of(found[j]) is Some,
        shadow_key(found[i]) == shadow_key(found[j]),
    ensures
        unshadowed(found.remove(j)) == unshadowed(found),
    decreases found.len(),
{
    let init = found.drop_last();
    assert(init[i] == found[i]);
    if j == found.len() - 1 {
        assert(found.remove(j) =~= init);
        assert(key_taken(init, shadow_key(found[j])));
    } else {
        assert(init[j] == found[j]);
        law_earlier_roots_shadow_later_ones(init, i, j);
        let less = found.remove(j);
        assert(less.drop_last() =~= init.remove(j));
        assert(less.last() == found.last());
        let key = shadow_key(found.last());
        if key_taken(init, key) {
            let k = choose|k: int|
                0 <= k < init.len() && shortcut_of(#[trigger] init[k]) is Some && shadow_key(
                    init[k],
                ) == key;
            if k < j {
                assert(init.remove(j)[k] == init[k]);
            } else if k > j {
                assert(init.remove(j)[k - 1] == init[k]);
            } else {
                assert(init.remove(j)[i] == init[i]);
            }
            assert(key_taken(init.remove(j), key));
        }
        if key_taken(init.remove(j), key) {
            let less_init = init.remove(j);
            let k = choose|k: int|
                0 <= k < less_init.len() && shortcut_of(#[trigger] less_init[k]) is Some
                    && shadow_key(less_init[k]) == key;
            if k < j {
                assert(init[k] == less_init[k]);
            } else {
                assert(init[k + 1] == less_init[k]);
            }
            assert(key_taken(init, key));
        }
    }
}

/// A file that is no shortcut leaves no trace.
pub proof fn law_other_files_are_ignored(found: Seq<FoundFile>)
    requires
        forall|i: int| 0 <= i < found.len() ==> shortcut_of(#[trigger] found[i]) is None,
    ensures
        unshadowed(found) == Seq::<AppModel>::empty(),
    decreases found.len(),
{
    if found.len() > 0 {
        assert(shortcut_of(found[found.len() - 1]) is None);
        assert forall|i: int| 0 <= i < found.drop_last().len() implies shortcut_of(
            #[trigger] found.drop_last()[i],
        ) is None by {
            assert(found.drop_last()[i] == found[i]);
        }
        law_other_files_are_ignored(found.drop_last());
    }
}

/// Typing finds every app whose name the filter occurs in, anywhere and in any
/// case, and no other app; the apps found keep their order.
pub proof fn law_typing_finds_apps_by_any_part_of_their_name(
    apps: Seq<AppEntry>,
    filter: Seq<char>,
)
    requires
        apps.len() <= usize::MAX,
    ensures
        forall|p: usize, a: Seq<char>, b: Seq<char>|
            p < apps.len() && text::lowercase(apps[p as int].name@) == #[trigger] (a
                + text::lowercase(filter) + b) ==> #[trigger] text::matching(
                names(apps),
                filter,
            ).contains(p),
        forall|p: usize| #[trigger]
            text::matching(names(apps), filter).contains(p) ==> p < apps.len() && exists|
                a: Seq<char>,
                b: Seq<char>,
            |
                text::lowercase(apps[p as int].name@) == #[trigger] (a + text::lowercase(filter)
                    + b),
        forall|i: int, j: int|
            0 <= i < j < text::matching(names(apps), filter).len() ==> #[trigger] text::matching(
                names(apps),
                filter,
            )[i] < #[trigger] text::matching(names(apps), filter)[j],
{
    let all = names(apps);
    text::law_a_filter_finds_every_occurrence(all, filter);
    assert forall|p: usize, a: Seq<char>, b: Seq<char>|
        p < apps.len() && text::lowercase(apps[p as int].name@) == #[trigger] (a
            + text::lowercase(filter) + b) implies #[trigger] text::matching(all, filter).contains(
        p,
    ) by {
        assert(all[p as int] == apps[p as int].name@);
    }
    assert forall|p: usize| #[trigger]
        text::matching(all, filter).contains(p) implies p < apps.len() && exists|
        a: Seq<char>,
        b: Seq<char>,
    |
        text::lowercase(apps[p as int].name@) == #[trigger] (a + text::lowercase(filter) + b) by {
        assert(all[p as int] == apps[p as int].name@);
    }
}

/// The start menus stand at their place below the data directories, the user's
/// before the machine's, and only below those that are known.
pub proof fn law_roots_are_the_users_then_the_machines(user: Seq<char>, machine: Seq<char>)
    requires
        user.len() > 2,
        user.last() != '\\' && user.last() != '/',
        machine.len() > 2,
        machine.last() != '\\' && machine.last() != '/',
    ensures
        root_texts(Some(user), Some(machine)) == seq![
            user + "\\Microsoft\\Windows\\Start Menu\\Programs"@,
            machine + "\\Microsoft\\Windows\\Start Menu\\Programs"@,
        ],
        root_texts(Some(user), None) == seq![user + "\\Microsoft\\Windows\\Start Menu\\Programs"@],
        root_texts(None, Some(machine)) == seq![
            machine + "\\Microsoft\\Windows\\Start Menu\\Programs"@,
        ],
        root_texts(None, None).len() == 0,
{
    lemma_programs_below(user);
    lemma_programs_below(machine);
    let a = programs_below(user);
    let b = programs_below(machine);
    assert(root_texts(Some(user), Some(machine)) =~= seq![a, b]);
    assert(root_texts(None, Some(machine)) =~= seq![b]);
}

proof fn lemma_programs_below(base: Seq<char>)
    requires
        base.len() > 2,
        base.last() != '\\' && base.last() != '/',
    ensures
        programs_below(base) == base + "\\Microsoft\\Windows\\Start Menu\\Programs"@,
{
    reveal_strlit("Microsoft");
    reveal_strlit("Windows");
    reveal_strlit("Start Menu");
    reveal_strlit("Programs");
    reveal_strlit("\\Microsoft\\Windows\\Start Menu\\Programs");
    let a = base + seq!['\\'] + "Microsoft"@;
    assert(a.last() == 't');
    assert(paths::below(base, "Microsoft"@) == a);
    let b = a + seq!['\\'] + "Windows"@;
    assert(b.last() == 's');
    let c = b + seq!['\\'] + "Start Menu"@;
    assert(c.last() == 'u');
    assert(programs_below(base) =~= base + "\\Microsoft\\Windows\\Start Menu\\Programs"@);
}

/// Folders are entered eight deep.
pub proof fn law_folders_are_entered_eight_deep()
    ensures
        MAX_DEPTH == 8,
{
}

/// A file is a shortcut by the extension behind the last dot of its name, `lnk` or
/// `url` in any case, and is listed under what is in front of that dot. A dot that
/// starts the name makes no extension.
pub proof fn law_shortcuts_are_listed_without_their_extension(
    f: FoundFile,
    stem: Seq<char>,
    extension: Seq<char>,
)
    ensures
        paths::file_name_of(f.path@) == stem + seq!['.'] + extension && !extension.contains('.')
            ==> {
            let wanted = stem.len() > 0 && (text::same_ignoring_case(extension, "lnk"@)
                || text::same_ignoring_case(extension, "url"@));
            &&& wanted ==> shortcut_of(f) == Some(AppModel { name: stem, path: f.path@ })
            &&& !wanted ==> shortcut_of(f) is None
        },
        !paths::file_name_of(f.path@).contains('.') ==> shortcut_of(f) is None,
{
    let name = paths::file_name_of(f.path@);
    lemma_last_dot_is(name);
    let at = last_dot(name);
    if name == stem + seq!['.'] + extension && !extension.contains('.') {
        let k = stem.len() as int;
        assert(name[k] == '.');
        assert(name.contains('.'));
        if at > k {
            assert(extension[at - k - 1] == name[at]);
            assert(extension.contains('.'));
        }
        assert(at == k);
        assert(name.skip(k + 1) =~= extension);
        assert(name.take(k) =~= stem);
    }
    if !name.contains('.') && at >= 0 {
        assert(name[at] == '.');
    }
}

proof fn lemma_last_dot_is(name: Seq<char>)
    ensures
        -1 <= last_dot(name) < name.len(),
        last_dot(name) >= 0 ==> name[last_dot(name)] == '.',
        forall|i: int| last_dot(name) < i < name.len() ==> #[trigger] name[i] != '.',
    decreases name.len(),
{
    if name.len() > 0 && name.last() != '.' {
        let init = name.drop_last();
        lemma_last_dot_is(init);
        assert forall|i: int| last_dot(name) < i < name.len() implies #[trigger] name[i] != '.' by {
            if i < init.len() {
                assert(init[i] == name[i]);
            }
        }
    }
}

/// Files are taken one by one, as they are met: a shortcut is listed unless an
/// earlier shortcut has its relative path, in any case.
pub proof fn law_the_first_of_a_relative_path_is_listed(found: Seq<FoundFile>, f: FoundFile)
    ensures
        unshadowed(Seq::empty()).len() == 0,
        ({
            let taken = exists|i: int|
                0 <= i < found.len() && shortcut_of(#[trigger] found[i]) is Some && text::lowercase(
                    found[i].relative@,
                ) == text::lowercase(f.relative@);
            &&& shortcut_of(f) is Some && !taken ==> unshadowed(found.push(f)) == unshadowed(
                found,
            ).push(shortcut_of(f)->0)
            &&& shortcut_of(f) is None || taken ==> unshadowed(found.push(f)) == unshadowed(found)
        }),
{
    let all = found.push(f);
    assert(all.drop_last() =~= found);
    assert(all.last() == f);
    if exists|i: int|
        0 <= i < found.len() && shortcut_of(#[trigger] found[i]) is Some && text::lowercase(
            found[i].relative@,
        ) == text::lowercase(f.relative@) {
        let i = choose|i: int|
            0 <= i < found.len() && shortcut_of(#[trigger] found[i]) is Some && text::lowercase(
                found[i].relative@,
            ) == text::lowercase(f.relative@);
        assert(shadow_key(found[i]) == shadow_key(f));
        assert(key_taken(found, shadow_key(f)));
    }
    if key_taken(found, shadow_key(f)) {
        let i = choose|i: int|
            0 <= i < found.len() && shortcut_of(#[trigger] found[i]) is Some && shadow_key(found[i])
                == shadow_key(f);
        assert(text::lowercase(found[i].relative@) == text::lowercase(f.relative@));
    }
}

/// The menu is ordered by name in lower case: no entry has a name that comes before
/// that of an earlier one, and entries of one name are ordered by their paths.
/// Nothing is added and nothing lost.
pub proof fn law_the_menu_is_ordered_by_name(list: Seq<AppModel>, i: int, j: int)
    requires
        0 <= i < j < in_menu_order(list).len(),
    ensures
        ({
            let a = in_menu_order(list)[i];
            let b = in_menu_order(list)[j];
            &&& !text::comes_before(text::lowercase(b.name), text::lowercase(a.name))
            &&& text::lowercase(b.name) == text::lowercase(a.name) ==> !paths::path_before(
                b.path,
                a.path,
            )
        }),
        in_menu_order(list).to_multiset() == list.to_multiset(),
{
    law_menu_is_sorted_and_complete(list);
    let all = in_menu_order(list);
    assert(!goes_before(all[j], all[i]));
}

/// Apps are the same where they have one name and the same path.
pub proof fn law_apps_are_the_same_by_name_and_path(a: AppModel, b: AppModel)
    ensures
        same_app(a, b) <==> a.name == b.name && paths::components_of(a.path)
            == paths::components_of(b.path),
{
}

} // verus!
