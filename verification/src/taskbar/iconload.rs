//! Bookkeeping of the background icon loader: which shortcut icons are still to
//! be decoded, and which decoded ones are waiting to be picked up.
use vstd::prelude::*;

use crate::paths;
use crate::taskbar::tasks::Icon;
use crate::text;

verus! {

/// The paths that were not requested yet, each once, in first-seen order.
pub open spec fn fresh(apps: Seq<Seq<char>>, requested: Seq<Seq<char>>) -> Seq<Seq<char>>
    decreases apps.len(),
{
    if apps.len() == 0 {
        Seq::empty()
    } else {
        let rest = fresh(apps.drop_last(), requested);
        if paths::lists_path(requested, apps.last()) || paths::lists_path(rest, apps.last()) {
            rest
        } else {
            rest.push(apps.last())
        }
    }
}

/// The paths in `apps` not yet handed to the loader. `requested` holds every
/// path ever requested (still decoding or already done), so this returns only
/// fresh work, deduplicated and in first-seen order.
pub fn needed(apps: &Vec<String>, requested: &Vec<String>) -> (r: Vec<String>)
    ensures
        text::texts(r@) == fresh(text::texts(apps@), text::texts(requested@)),
{
    let mut out: Vec<String> = Vec::new();
    let mut i: usize = 0;
    let ghost all = text::texts(apps@);
    proof {
        assert(text::texts(out@) =~= Seq::<Seq<char>>::empty());
    }
    while i < apps.len()
        invariant
            i <= apps@.len(),
            all == text::texts(apps@),
            text::texts(out@) == fresh(all.take(i as int), text::texts(requested@)),
        decreases apps@.len() - i,
    {
        proof {
            assert(all.take(i + 1).drop_last() =~= all.take(i as int));
            assert(all.take(i + 1).last() == apps@[i as int]@);
        }
        if !paths::contains(requested, apps[i].as_str()) && !paths::contains(
            &out,
            apps[i].as_str(),
        ) {
            let path = apps[i].clone();
            proof {
                assert(text::texts(out@.push(path)) =~= text::texts(out@).push(path@));
            }
            out.push(path);
        }
        i = i + 1;
    }
    proof {
        assert(all.take(all.len() as int) =~= all);
    }
    out
}

/// Fresh work is never work that was requested before, names no path twice,
/// and misses no path that was not requested, however the paths are written.
pub proof fn law_each_icon_is_requested_once(apps: Seq<Seq<char>>, requested: Seq<Seq<char>>)
    ensures
        forall|i: int, j: int|
            0 <= i < j < fresh(apps, requested).len() ==> !paths::same_path(
                #[trigger] fresh(apps, requested)[i],
                #[trigger] fresh(apps, requested)[j],
            ),
        forall|p: Seq<char>|
            #![trigger paths::lists_path(fresh(apps, requested), p)]
            paths::lists_path(fresh(apps, requested), p) <==> paths::lists_path(apps, p)
                && !paths::lists_path(requested, p),
    decreases apps.len(),
{
    let all = fresh(apps, requested);
    if apps.len() > 0 {
        let init = apps.drop_last();
        let last = apps.last();
        let rest = fresh(init, requested);
        law_each_icon_is_requested_once(init, requested);
        assert(init.push(last) =~= apps);
        assert forall|p: Seq<char>|
            #![trigger paths::lists_path(all, p)]
            paths::lists_path(all, p) <==> paths::lists_path(apps, p) && !paths::lists_path(
                requested,
                p,
            ) by {
            lemma_push_path(init, last, p);
            lemma_push_path(rest, last, p);
            lemma_same_path_listed(requested, last, p);
            lemma_same_path_listed(rest, last, p);
            assert(paths::lists_path(rest, p) <==> paths::lists_path(init, p)
                && !paths::lists_path(requested, p));
        }
        assert forall|i: int, j: int| 0 <= i < j < all.len() implies !paths::same_path(
            #[trigger] all[i],
            #[trigger] all[j],
        ) by {
            if j < rest.len() {
                assert(all[i] == rest[i] && all[j] == rest[j]);
            } else {
                assert(all[i] == rest[i]);
                assert(all[j] == last);
            }
        }
    }
}

/// Once everything was requested, nothing is fresh.
pub proof fn law_second_request_asks_for_nothing(apps: Seq<Seq<char>>, requested: Seq<Seq<char>>)
    ensures
        fresh(apps, requested + fresh(apps, requested)).len() == 0,
{
    let first = fresh(apps, requested);
    let asked = requested + first;
    let again = fresh(apps, asked);
    law_each_icon_is_requested_once(apps, requested);
    law_each_icon_is_requested_once(apps, asked);
    if again.len() > 0 {
        let p = again[0];
        assert(paths::same_path(again[0], p));
        assert(paths::lists_path(again, p));
        if paths::lists_path(requested, p) {
            let k = choose|k: int|
                0 <= k < requested.len() && paths::same_path(#[trigger] requested[k], p);
            assert(asked[k] == requested[k]);
        } else {
            assert(paths::lists_path(first, p));
            let k = choose|k: int| 0 <= k < first.len() && paths::same_path(#[trigger] first[k], p);
            assert(asked[requested.len() + k] == first[k]);
        }
        assert(paths::lists_path(asked, p));
    }
}

proof fn lemma_push_path(s: Seq<Seq<char>>, x: Seq<char>, p: Seq<char>)
    ensures
        paths::lists_path(s.push(x), p) <==> paths::lists_path(s, p) || paths::same_path(x, p),
{
    let all = s.push(x);
    if paths::lists_path(s, p) {
        let m = choose|m: int| 0 <= m < s.len() && paths::same_path(#[trigger] s[m], p);
        assert(all[m] == s[m]);
    }
    if paths::same_path(x, p) {
        assert(all[s.len() as int] == x);
    }
    if paths::lists_path(all, p) {
        let m = choose|m: int| 0 <= m < all.len() && paths::same_path(#[trigger] all[m], p);
        if m < s.len() {
            assert(s[m] == all[m]);
        }
    }
}

/// A list has a path however it is written.
proof fn lemma_same_path_listed(s: Seq<Seq<char>>, x: Seq<char>, p: Seq<char>)
    ensures
        paths::same_path(x, p) ==> paths::lists_path(s, x) == paths::lists_path(s, p),
{
    if paths::same_path(x, p) {
        if paths::lists_path(s, x) {
            let m = choose|m: int| 0 <= m < s.len() && paths::same_path(#[trigger] s[m], x);
            assert(paths::same_path(s[m], p));
        }
        if paths::lists_path(s, p) {
            let m = choose|m: int| 0 <= m < s.len() && paths::same_path(#[trigger] s[m], p);
            assert(paths::same_path(s[m], x));
        }
    }
}

/// The two ends of the background decoder as its user sees them: every path
/// ever requested, and the icons that are done and not picked up.
#[derive(Debug, Clone, PartialEq, Eq)]
pub struct IconLoader {
    pub requested: Vec<String>,
    pub done: Vec<(String, Option<Icon>)>,
}

impl IconLoader {
    /// A loader that was asked for nothing yet.
    pub fn new() -> (r: Self)
        ensures
            r.requested@ == Seq::<String>::empty(),
            r.done@ == Seq::<(String, Option<Icon>)>::empty(),
    {
        IconLoader { requested: Vec::new(), done: Vec::new() }
    }

    /// Ask for the icons of `apps`: the paths to queue for decoding. Each path
    /// is queued once, however often it is asked for.
    pub fn request(&mut self, apps: &Vec<String>) -> (queue: Vec<String>)
        ensures
            text::texts(queue@) == fresh(text::texts(apps@), text::texts(old(self).requested@)),
            text::texts(final(self).requested@) == text::texts(old(self).requested@) + text::texts(
                queue@,
            ),
            final(self).done == old(self).done,
    {
        let queue = needed(apps, &self.requested);
        let mut i: usize = 0;
        proof {
            assert(text::texts(queue@).take(0) =~= Seq::<Seq<char>>::empty());
            assert(text::texts(self.requested@) + Seq::<Seq<char>>::empty() =~= text::texts(
                self.requested@,
            ));
        }
        while i < queue.len()
            invariant
                i <= queue@.len(),
                self.done == old(self).done,
                text::texts(self.requested@) == text::texts(old(self).requested@) + text::texts(
                    queue@,
                ).take(i as int),
            decreases queue@.len() - i,
        {
            let path = queue[i].clone();
            proof {
                let before = text::texts(old(self).requested@);
                let q = text::texts(queue@);
                assert(q[i as int] == path@);
                assert(text::texts(self.requested@.push(path)) =~= text::texts(
                    self.requested@,
                ).push(path@));
                assert((before + q.take(i as int)).push(path@) =~= before + q.take(i + 1));
            }
            self.requested.push(path);
            i = i + 1;
        }
        proof {
            let q = text::texts(queue@);
            assert(q.take(q.len() as int) =~= q);
        }
        queue
    }

    /// An icon is done.
    pub fn finish(&mut self, path: String, icon: Option<Icon>)
        ensures
            final(self).done@ == old(self).done@.push((path, icon)),
            final(self).requested == old(self).requested,
    {
        self.done.push((path, icon));
    }

    /// Take every icon that was done since the last drain, in order.
    pub fn drain(&mut self) -> (r: Vec<(String, Option<Icon>)>)
        ensures
            r@ == old(self).done@,
            final(self).done@ == Seq::<(String, Option<Icon>)>::empty(),
            final(self).requested == old(self).requested,
    {
        let mut out: Vec<(String, Option<Icon>)> = Vec::new();
        std::mem::swap(&mut out, &mut self.done);
        out
    }
}

} // verus!
