//! Which processes a kill by executable name ends: our own strays, and (for
//! live activation) the outgoing desktop and the session tree it spawned.
//!
//! The name kills are called with our own executable names, with one exception
//! used solely by live activation: [`kill_tree_named`] with the desktop's name
//! ends the outgoing desktop *and* the descendant tree it spawned, because
//! activation stands in for a logout, which ends them all. It never picks the
//! calling process or the ancestor chain that launched it, so that the terminal
//! or manager window driving the swap survives.
use vstd::prelude::*;

use crate::text;

verus! {

/// One running process: its id, its parent's id, and the lower-case name of its
/// executable.
#[derive(Debug, Clone, PartialEq, Eq)]
pub struct ProcessEntry {
    pub pid: u32,
    pub parent: u32,
    pub name: String,
}

/// Whether the forest has an entry that makes `parent` the parent of `child`.
/// An entry that is its own parent links nothing.
pub open spec fn linked(procs: Seq<(u32, u32)>, child: u32, parent: u32) -> bool {
    child != parent && procs.contains((child, parent))
}

/// Whether `pid` is `n` links below one of the seeds.
pub open spec fn reaches(procs: Seq<(u32, u32)>, seeds: Seq<u32>, pid: u32, n: nat) -> bool
    decreases n,
{
    if n == 0 {
        seeds.contains(pid)
    } else {
        exists|parent: u32| #[trigger]
            linked(procs, pid, parent) && reaches(procs, seeds, parent, (n - 1) as nat)
    }
}

/// Whether `pid` is below one of the seeds and not a seed itself.
pub open spec fn is_descendant(procs: Seq<(u32, u32)>, seeds: Seq<u32>, pid: u32) -> bool {
    !seeds.contains(pid) && exists|n: nat| #[trigger] reaches(procs, seeds, pid, n)
}

/// Whether all children of `parent` are in one of the two lists.
pub open spec fn children_in(
    procs: Seq<(u32, u32)>,
    parent: u32,
    a: Seq<u32>,
    b: Seq<u32>,
) -> bool {
    forall|c: u32| #[trigger] linked(procs, c, parent) ==> a.contains(c) || b.contains(c)
}

/// Whether a list holds a process id.
fn holds(list: &Vec<u32>, pid: u32) -> (r: bool)
    ensures
        r == list@.contains(pid),
{
    holds_slice(list.as_slice(), pid)
}

fn holds_slice(list: &[u32], pid: u32) -> (r: bool)
    ensures
        r == list@.contains(pid),
{
    let mut i: usize = 0;
    while i < list.len()
        invariant
            i <= list@.len(),
            forall|j: int| 0 <= j < i ==> list@[j] != pid,
        decreases list@.len() - i,
    {
        if list[i] == pid {
            return true;
        }
        i = i + 1;
    }
    false
}

/// Distinct ids that all occur in a list are no more than the list is long.
proof fn lemma_distinct_ids_fit(found: Seq<u32>, ids: Seq<u32>)
    requires
        found.no_duplicates(),
        forall|i: int| 0 <= i < found.len() ==> ids.contains(#[trigger] found[i]),
    ensures
        found.len() <= ids.len(),
{
    found.unique_seq_to_set();
    vstd::seq_lib::seq_to_set_is_finite(ids);
    ids.lemma_cardinality_of_set();
    assert forall|x: u32| found.to_set().contains(x) implies ids.to_set().contains(x) by {
        let i = choose|i: int| 0 <= i < found.len() && found[i] == x;
        assert(ids.contains(found[i]));
    }
    vstd::set_lib::lemma_len_subset(found.to_set(), ids.to_set());
}

/// Append to `found` the children of `parent` that are in neither list yet.
fn add_children(procs: &[(u32, u32)], parent: u32, seeds: &[u32], found: &mut Vec<u32>)
    requires
        old(found)@.no_duplicates(),
    ensures
        final(found)@.no_duplicates(),
        final(found)@.len() >= old(found)@.len(),
        final(found)@.take(old(found)@.len() as int) == old(found)@,
        forall|i: int|
            old(found)@.len() <= i < final(found)@.len() ==> linked(
                procs@,
                #[trigger] final(found)@[i],
                parent,
            ) && !seeds@.contains(final(found)@[i]),
        children_in(procs@, parent, seeds@, final(found)@),
{
    let ghost start = found@;
    let mut i: usize = 0;
    while i < procs.len()
        invariant
            i <= procs@.len(),
            found@.no_duplicates(),
            found@.len() >= start.len(),
            found@.take(start.len() as int) == start,
            forall|k: int|
                start.len() <= k < found@.len() ==> linked(procs@, #[trigger] found@[k], parent)
                    && !seeds@.contains(found@[k]),
            forall|k: int|
                0 <= k < i && (#[trigger] procs@[k]).1 == parent && procs@[k].0 != parent
                    ==> seeds@.contains(procs@[k].0) || found@.contains(procs@[k].0),
        decreases procs@.len() - i,
    {
        let (pid, ppid) = procs[i];
        let ghost before = found@;
        if pid != ppid && ppid == parent && !holds_slice(seeds, pid) && !holds(found, pid) {
            found.push(pid);
            proof {
                assert(procs@.contains((pid, parent)));
                assert(found@.take(start.len() as int) =~= start);
                assert forall|k: int|
                    0 <= k < i + 1 && (#[trigger] procs@[k]).1 == parent && procs@[k].0
                        != parent implies seeds@.contains(procs@[k].0) || found@.contains(
                    procs@[k].0,
                ) by {
                    if before.contains(procs@[k].0) {
                        let m = choose|m: int| 0 <= m < before.len() && before[m] == procs@[k].0;
                        assert(found@[m] == before[m]);
                    } else if procs@[k].0 == pid {
                        assert(found@[found@.len() - 1] == pid);
                    }
                }
            }
        }
        i = i + 1;
    }
    proof {
        assert forall|c: u32| #[trigger] linked(procs@, c, parent) implies seeds@.contains(c)
            || found@.contains(c) by {
            let k = choose|k: int| 0 <= k < procs@.len() && procs@[k] == (c, parent);
            assert(procs@[k].1 == parent);
        }
    }
}

/// What lists that are closed under children hold: everything the seeds reach.
proof fn lemma_closed_holds_reached(
    procs: Seq<(u32, u32)>,
    seeds: Seq<u32>,
    found: Seq<u32>,
    pid: u32,
    n: nat,
)
    requires
        forall|p: u32|
            seeds.contains(p) || found.contains(p) ==> #[trigger] children_in(
                procs,
                p,
                seeds,
                found,
            ),
        reaches(procs, seeds, pid, n),
    ensures
        seeds.contains(pid) || found.contains(pid),
    decreases n,
{
    if n > 0 {
        let parent = choose|parent: u32| #[trigger]
            linked(procs, pid, parent) && reaches(procs, seeds, parent, (n - 1) as nat);
        lemma_closed_holds_reached(procs, seeds, found, parent, (n - 1) as nat);
        assert(children_in(procs, parent, seeds, found));
    }
}

/// A child of something reached is reached.
proof fn lemma_child_reached(procs: Seq<(u32, u32)>, seeds: Seq<u32>, child: u32, parent: u32)
    requires
        linked(procs, child, parent),
        exists|n: nat| #[trigger] reaches(procs, seeds, parent, n),
    ensures
        exists|n: nat| #[trigger] reaches(procs, seeds, child, n),
{
    let n = choose|n: nat| #[trigger] reaches(procs, seeds, parent, n);
    assert(reaches(procs, seeds, child, n + 1));
}

/// Transitive closure of the descendants of `seeds` in a `(pid, parent-pid)`
/// forest, in no particular order. The seeds themselves are not included.
/// Cycle-safe: PID reuse can forge a parent loop.
pub fn descendant_pids(procs: &[(u32, u32)], seeds: &[u32]) -> (r: Vec<u32>)
    ensures
        r@.no_duplicates(),
        forall|pid: u32| r@.contains(pid) <==> is_descendant(procs@, seeds@, pid),
{
    let mut found: Vec<u32> = Vec::new();
    let ghost ids = procs@.map_values(|p: (u32, u32)| p.0);
    let mut i: usize = 0;
    while i < seeds.len()
        invariant
            i <= seeds@.len(),
            found@.no_duplicates(),
            forall|k: int|
                0 <= k < found@.len() ==> is_descendant(procs@, seeds@, #[trigger] found@[k]),
            forall|j: int|
                0 <= j < i ==> children_in(procs@, #[trigger] seeds@[j], seeds@, found@),
        decreases seeds@.len() - i,
    {
        let ghost before = found@;
        add_children(procs, seeds[i], seeds, &mut found);
        proof {
            let seed = seeds@[i as int];
            assert(reaches(procs@, seeds@, seed, 0));
            lemma_grown(procs@, seeds@, before, found@, seed);
            assert forall|j: int| 0 <= j < i + 1 implies children_in(
                procs@,
                #[trigger] seeds@[j],
                seeds@,
                found@,
            ) by {
                if j < i {
                    lemma_children_in_grows(procs@, seeds@[j], seeds@, before, found@);
                }
            }
        }
        i = i + 1;
    }
    let mut k: usize = 0;
    while k < found.len()
        invariant
            k <= found@.len(),
            found@.no_duplicates(),
            ids == procs@.map_values(|p: (u32, u32)| p.0),
            forall|m: int|
                0 <= m < found@.len() ==> is_descendant(procs@, seeds@, #[trigger] found@[m]),
            forall|j: int|
                0 <= j < seeds@.len() ==> children_in(
                    procs@,
                    #[trigger] seeds@[j],
                    seeds@,
                    found@,
                ),
            forall|j: int|
                0 <= j < k ==> children_in(procs@, #[trigger] found@[j], seeds@, found@),
        decreases procs@.len() - k,
    {
        let ghost before = found@;
        let parent: u32 = found[k];
        proof {
            lemma_found_fit(procs@, seeds@, found@);
        }
        add_children(procs, parent, seeds, &mut found);
        proof {
            assert(is_descendant(procs@, seeds@, before[k as int]));
            lemma_grown(procs@, seeds@, before, found@, parent);
            assert forall|j: int| 0 <= j < seeds@.len() implies children_in(
                procs@,
                #[trigger] seeds@[j],
                seeds@,
                found@,
            ) by {
                lemma_children_in_grows(procs@, seeds@[j], seeds@, before, found@);
            }
            assert forall|j: int| 0 <= j < k + 1 implies children_in(
                procs@,
                #[trigger] found@[j],
                seeds@,
                found@,
            ) by {
                assert(found@[j] == found@.take(before.len() as int)[j]);
                assert(found@[j] == before[j]);
                if j < k {
                    lemma_children_in_grows(procs@, before[j], seeds@, before, found@);
                }
            }
            lemma_found_fit(procs@, seeds@, found@);
        }
        k = k + 1;
    }
    proof {
        assert forall|p: u32|
            seeds@.contains(p) || found@.contains(p) implies #[trigger] children_in(
            procs@,
            p,
            seeds@,
            found@,
        ) by {
            if seeds@.contains(p) {
                let j = choose|j: int| 0 <= j < seeds@.len() && seeds@[j] == p;
                assert(children_in(procs@, seeds@[j], seeds@, found@));
            } else {
                let j = choose|j: int| 0 <= j < found@.len() && found@[j] == p;
                assert(children_in(procs@, found@[j], seeds@, found@));
            }
        }
        assert forall|pid: u32| found@.contains(pid) <==> is_descendant(procs@, seeds@, pid) by {
            if found@.contains(pid) {
                let j = choose|j: int| 0 <= j < found@.len() && found@[j] == pid;
                assert(is_descendant(procs@, seeds@, found@[j]));
            }
            if is_descendant(procs@, seeds@, pid) {
                let n = choose|n: nat| #[trigger] reaches(procs@, seeds@, pid, n);
                lemma_closed_holds_reached(procs@, seeds@, found@, pid, n);
            }
        }
    }
    found
}

/// Children stay covered as the found list grows.
proof fn lemma_children_in_grows(
    procs: Seq<(u32, u32)>,
    parent: u32,
    seeds: Seq<u32>,
    before: Seq<u32>,
    after: Seq<u32>,
)
    requires
        children_in(procs, parent, seeds, before),
        after.len() >= before.len(),
        after.take(before.len() as int) == before,
    ensures
        children_in(procs, parent, seeds, after),
{
    assert forall|c: u32| #[trigger] linked(procs, c, parent) implies seeds.contains(c)
        || after.contains(c) by {
        if before.contains(c) {
            let m = choose|m: int| 0 <= m < before.len() && before[m] == c;
            assert(after[m] == after.take(before.len() as int)[m]);
        }
    }
}

/// What was found stays below the seeds as children of something reached are
/// added.
proof fn lemma_grown(
    procs: Seq<(u32, u32)>,
    seeds: Seq<u32>,
    before: Seq<u32>,
    after: Seq<u32>,
    parent: u32,
)
    requires
        forall|k: int|
            0 <= k < before.len() ==> is_descendant(procs, seeds, #[trigger] before[k]),
        exists|n: nat| #[trigger] reaches(procs, seeds, parent, n),
        after.len() >= before.len(),
        after.take(before.len() as int) == before,
        forall|i: int|
            before.len() <= i < after.len() ==> linked(procs, #[trigger] after[i], parent)
                && !seeds.contains(after[i]),
    ensures
        forall|k: int|
            0 <= k < after.len() ==> is_descendant(procs, seeds, #[trigger] after[k]),
{
    assert forall|k: int| 0 <= k < after.len() implies is_descendant(
        procs,
        seeds,
        #[trigger] after[k],
    ) by {
        if k < before.len() {
            assert(after[k] == after.take(before.len() as int)[k]);
            assert(is_descendant(procs, seeds, before[k]));
        } else {
            lemma_child_reached(procs, seeds, after[k], parent);
        }
    }
}

/// The found list is no longer than the forest.
proof fn lemma_found_fit(procs: Seq<(u32, u32)>, seeds: Seq<u32>, found: Seq<u32>)
    requires
        found.no_duplicates(),
        forall|k: int|
            0 <= k < found.len() ==> is_descendant(procs, seeds, #[trigger] found[k]),
    ensures
        found.len() <= procs.len(),
{
    let ids = procs.map_values(|p: (u32, u32)| p.0);
    assert forall|i: int| 0 <= i < found.len() implies ids.contains(#[trigger] found[i]) by {
        assert(is_descendant(procs, seeds, found[i]));
        let n = choose|n: nat| #[trigger] reaches(procs, seeds, found[i], n);
        let parent = choose|parent: u32| #[trigger]
            linked(procs, found[i], parent) && reaches(procs, seeds, parent, (n - 1) as nat);
        let m = choose|m: int| 0 <= m < procs.len() && procs[m] == (found[i], parent);
        assert(ids[m] == found[i]);
    }
    lemma_distinct_ids_fit(found, ids);
}

/// The parent the first entry for `pid` gives it.
pub open spec fn parent_of(procs: Seq<(u32, u32)>, pid: u32) -> Option<u32>
    decreases procs.len(),
{
    if procs.len() == 0 {
        None
    } else {
        match parent_of(procs.drop_last(), pid) {
            Some(p) => Some(p),
            None => if procs.last().0 == pid {
                Some(procs.last().1)
            } else {
                None
            },
        }
    }
}

/// The process at step `i` of a walk up from `start`: `start`, then the chain.
pub open spec fn step(start: u32, chain: Seq<u32>, i: int) -> u32 {
    if i == 0 {
        start
    } else {
        chain[i - 1]
    }
}

/// Whether `chain` is the walk from `start` up the forest: each process is the
/// parent of the one before, none is 0 or occurs twice, and the walk goes on as
/// long as that holds.
pub open spec fn is_ancestor_chain(procs: Seq<(u32, u32)>, start: u32, chain: Seq<u32>) -> bool {
    &&& forall|i: int|
        #![trigger chain[i]]
        0 <= i < chain.len() ==> {
            &&& parent_of(procs, step(start, chain, i)) == Some(chain[i])
            &&& chain[i] != 0
            &&& chain[i] != start
            &&& !chain.take(i).contains(chain[i])
        }
    &&& match parent_of(procs, step(start, chain, chain.len() as int)) {
        Some(p) => p == 0 || p == start || chain.contains(p),
        None => true,
    }
}

/// The parent the first entry for `pid` gives it.
fn find_parent(procs: &[(u32, u32)], pid: u32) -> (r: Option<u32>)
    ensures
        r == parent_of(procs@, pid),
        r matches Some(p) ==> procs@.map_values(|e: (u32, u32)| e.1).contains(p),
{
    let mut i: usize = 0;
    while i < procs.len()
        invariant
            i <= procs@.len(),
            parent_of(procs@.take(i as int), pid) is None,
        decreases procs@.len() - i,
    {
        proof {
            assert(procs@.take(i + 1).drop_last() =~= procs@.take(i as int));
            assert(procs@.take(i + 1).last() == procs@[i as int]);
        }
        if procs[i].0 == pid {
            proof {
                lemma_parent_of_prefix(procs@, i + 1, pid);
                assert(procs@.map_values(|e: (u32, u32)| e.1)[i as int] == procs@[i as int].1);
            }
            return Some(procs[i].1);
        }
        i = i + 1;
    }
    proof {
        assert(procs@.take(procs@.len() as int) =~= procs@);
    }
    None
}

/// A parent found in the first entries is the parent.
proof fn lemma_parent_of_prefix(procs: Seq<(u32, u32)>, n: int, pid: u32)
    requires
        0 <= n <= procs.len(),
        parent_of(procs.take(n), pid) is Some,
    ensures
        parent_of(procs, pid) == parent_of(procs.take(n), pid),
    decreases procs.len() - n,
{
    if n < procs.len() {
        assert(procs.take(n + 1).drop_last() =~= procs.take(n));
        lemma_parent_of_prefix(procs, n + 1, pid);
    } else {
        assert(procs.take(n) =~= procs);
    }
}

/// The ancestor chain of `start` (its parent, grandparent, … up to the root)
/// in a `(pid, parent-pid)` forest. `start` itself is not included; a
/// parent-pid of 0 ends the walk. Cycle-safe.
pub fn ancestor_pids(procs: &[(u32, u32)], start: u32) -> (chain: Vec<u32>)
    ensures
        is_ancestor_chain(procs@, start, chain@),
{
    let mut chain: Vec<u32> = Vec::new();
    let mut cur: u32 = start;
    let mut walking: bool = true;
    let ghost parents = procs@.map_values(|e: (u32, u32)| e.1);
    while walking
        invariant
            parents == procs@.map_values(|e: (u32, u32)| e.1),
            cur == step(start, chain@, chain@.len() as int),
            chain@.no_duplicates(),
            forall|i: int| 0 <= i < chain@.len() ==> parents.contains(#[trigger] chain@[i]),
            forall|i: int|
                #![trigger chain@[i]]
                0 <= i < chain@.len() ==> {
                    &&& parent_of(procs@, step(start, chain@, i)) == Some(chain@[i])
                    &&& chain@[i] != 0
                    &&& chain@[i] != start
                    &&& !chain@.take(i).contains(chain@[i])
                },
            !walking ==> match parent_of(procs@, cur) {
                Some(p) => p == 0 || p == start || chain@.contains(p),
                None => true,
            },
        decreases
                if walking {
                    procs@.len() - chain@.len() + 1
                } else {
                    0
                },
    {
        proof {
            lemma_distinct_ids_fit(chain@, parents);
        }
        match find_parent(procs, cur) {
            None => {
                walking = false;
            },
            Some(ppid) => {
                if ppid == 0 || ppid == start || holds(&chain, ppid) {
                    walking = false;
                } else {
                    let ghost before = chain@;
                    chain.push(ppid);
                    proof {
                        assert forall|i: int|
                            #![trigger chain@[i]]
                            0 <= i < chain@.len() implies {
                            &&& parent_of(procs@, step(start, chain@, i)) == Some(chain@[i])
                            &&& chain@[i] != 0
                            &&& chain@[i] != start
                            &&& !chain@.take(i).contains(chain@[i])
                        } by {
                            assert(chain@.take(i) =~= before.take(i));
                            if i < before.len() {
                                assert(chain@[i] == before[i]);
                                assert(step(start, chain@, i) == step(start, before, i));
                            } else {
                                assert(before.take(i) =~= before);
                                assert(step(start, chain@, i) == cur);
                            }
                        }
                        assert forall|i: int| 0 <= i < chain@.len() implies parents.contains(
                            #[trigger] chain@[i],
                        ) by {
                            if i < before.len() {
                                assert(chain@[i] == before[i]);
                            }
                        }
                        lemma_distinct_ids_fit(chain@, parents);
                    }
                    cur = ppid;
                }
            },
        }
    }
    chain
}

/// There is one ancestor chain only.
pub proof fn law_ancestor_chain_is_unique(
    procs: Seq<(u32, u32)>,
    start: u32,
    a: Seq<u32>,
    b: Seq<u32>,
)
    requires
        is_ancestor_chain(procs, start, a),
        is_ancestor_chain(procs, start, b),
    ensures
        a == b,
{
    if a.len() <= b.len() {
        lemma_chain_prefix(procs, start, a, b, a.len() as int);
        lemma_chain_not_longer(procs, start, a, b);
    } else {
        lemma_chain_prefix(procs, start, b, a, b.len() as int);
        lemma_chain_not_longer(procs, start, b, a);
    }
    assert(a =~= b);
}

proof fn lemma_chain_prefix(
    procs: Seq<(u32, u32)>,
    start: u32,
    a: Seq<u32>,
    b: Seq<u32>,
    n: int,
)
    requires
        is_ancestor_chain(procs, start, a),
        is_ancestor_chain(procs, start, b),
        0 <= n <= a.len() <= b.len(),
    ensures
        forall|i: int| 0 <= i < n ==> #[trigger] a[i] == b[i],
    decreases n,
{
    if n > 0 {
        lemma_chain_prefix(procs, start, a, b, n - 1);
        assert(step(start, a, n - 1) == step(start, b, n - 1));
        assert(a[n - 1] == b[n - 1]);
    }
}

proof fn lemma_chain_not_longer(procs: Seq<(u32, u32)>, start: u32, a: Seq<u32>, b: Seq<u32>)
    requires
        is_ancestor_chain(procs, start, a),
        is_ancestor_chain(procs, start, b),
        a.len() <= b.len(),
        forall|i: int| 0 <= i < a.len() ==> #[trigger] a[i] == b[i],
    ensures
        a.len() == b.len(),
{
    if a.len() < b.len() {
        let n = a.len() as int;
        assert(step(start, a, n) == step(start, b, n));
        let p = b[n];
        assert(parent_of(procs, step(start, b, n)) == Some(p));
        if a.contains(p) {
            let k = choose|k: int| 0 <= k < a.len() && a[k] == p;
            assert(b.take(n)[k] == p);
        }
        assert(false);
    }
}

/// The ids of the processes with that (lower-case) name, other than `own`, in
/// order.
pub open spec fn named(procs: Seq<ProcessEntry>, name: Seq<char>, own: u32) -> Seq<u32>
    decreases procs.len(),
{
    if procs.len() == 0 {
        Seq::empty()
    } else {
        let rest = named(procs.drop_last(), name, own);
        if procs.last().name@ == name && procs.last().pid != own {
            rest.push(procs.last().pid)
        } else {
            rest
        }
    }
}

/// The `(pid, parent-pid)` forest of a list of processes.
pub open spec fn forest(procs: Seq<ProcessEntry>) -> Seq<(u32, u32)> {
    procs.map_values(|p: ProcessEntry| (p.pid, p.parent))
}

/// The units of a name field, up to a zero unit.
pub open spec fn name_units(units: Seq<u16>) -> Seq<u16>
    decreases units.len(),
{
    if units.len() == 0 || units[0] == 0 {
        Seq::empty()
    } else {
        seq![units[0]] + name_units(units.skip(1))
    }
}

/// One process of a snapshot, from its raw fields: the executable name is the
/// UTF-16 text up to a zero unit, in ASCII lower case.
pub fn process_entry(pid: u32, parent: u32, exe: &[u16]) -> (r: ProcessEntry)
    ensures
        r.pid == pid,
        r.parent == parent,
        r.name@ == text::lowered(text::utf16_text(name_units(exe@))),
{
    let mut units: Vec<u16> = Vec::new();
    let mut i: usize = 0;
    proof {
        assert(exe@.skip(0) =~= exe@);
        assert(units@ + name_units(exe@) =~= name_units(exe@));
    }
    while i < exe.len() && exe[i] != 0
        invariant
            i <= exe@.len(),
            units@ + name_units(exe@.skip(i as int)) == name_units(exe@),
        decreases exe@.len() - i,
    {
        proof {
            let rest = exe@.skip(i as int);
            let tail = name_units(exe@.skip(i + 1));
            assert(rest.skip(1) =~= exe@.skip(i + 1));
            assert(units@ + (seq![exe@[i as int]] + tail) =~= units@.push(exe@[i as int]) + tail);
        }
        units.push(exe[i]);
        i = i + 1;
    }
    proof {
        assert(name_units(exe@.skip(i as int)) =~= Seq::<u16>::empty());
        assert(units@ + Seq::<u16>::empty() =~= units@);
    }
    let name = text::utf16_lossy(&units);
    ProcessEntry { pid, parent, name: text::ascii_lowercase(name.as_str()) }
}

/// The pids of every running process whose executable name matches `exe_name`
/// (case-insensitive), excluding the calling process.
pub fn pids_named(procs: &Vec<ProcessEntry>, exe_name: &str, own: u32) -> (r: Vec<u32>)
    ensures
        r@ == named(procs@, text::lowered(exe_name@), own),
{
    let target = text::ascii_lowercase(exe_name);
    let mut out: Vec<u32> = Vec::new();
    let mut i: usize = 0;
    while i < procs.len()
        invariant
            i <= procs@.len(),
            target@ == text::lowered(exe_name@),
            out@ == named(procs@.take(i as int), target@, own),
        decreases procs@.len() - i,
    {
        proof {
            assert(procs@.take(i + 1).drop_last() =~= procs@.take(i as int));
            assert(procs@.take(i + 1).last() == procs@[i as int]);
        }
        if procs[i].name == target && procs[i].pid != own {
            out.push(procs[i].pid);
        }
        i = i + 1;
    }
    proof {
        assert(procs@.take(procs@.len() as int) =~= procs@);
    }
    out
}

/// The processes a kill by name ends: every running process whose executable
/// name matches `exe_name` (case-insensitive), except the calling process. The
/// caller terminates them best-effort and counts its successes.
pub fn kill_all_named(procs: &Vec<ProcessEntry>, exe_name: &str, own: u32) -> (r: Vec<u32>)
    ensures
        r@ == named(procs@, text::lowered(exe_name@), own),
{
    pids_named(procs, exe_name, own)
}

/// Whether any process with this executable name is running (excluding the
/// calling process).
pub fn any_named(procs: &Vec<ProcessEntry>, exe_name: &str, own: u32) -> (r: bool)
    ensures
        r == (named(procs@, text::lowered(exe_name@), own).len() > 0),
{
    !pids_named(procs, exe_name, own).is_empty()
}

/// Whether a tree kill picks `pid` as part of the tree below the named
/// processes: it is below one of them, and neither the calling process nor an
/// ancestor of it.
pub open spec fn in_doomed_tree(
    procs: Seq<ProcessEntry>,
    name: Seq<char>,
    own: u32,
    pid: u32,
) -> bool {
    &&& is_descendant(forest(procs), named(procs, name, own), pid)
    &&& pid != own
    &&& !is_ancestor(forest(procs), own, pid)
}

/// Whether `pid` is on the ancestor chain of `start`.
pub open spec fn is_ancestor(procs: Seq<(u32, u32)>, start: u32, pid: u32) -> bool {
    exists|chain: Seq<u32>| #[trigger]
        is_ancestor_chain(procs, start, chain) && chain.contains(pid)
}

/// The processes a tree kill ends, in order: the descendants of every process
/// named `exe_name`, then those processes themselves. The calling process and
/// the ancestor chain that launched it are spared as descendants (the terminal
/// or manager window driving the swap survives); a named process is picked
/// even from the ancestor chain, since ending the desktop is the point.
pub fn kill_tree_named(procs: &Vec<ProcessEntry>, exe_name: &str, own: u32) -> (r: Vec<u32>)
    ensures
        ({
            let seeds = named(procs@, text::lowered(exe_name@), own);
            let below = r@.len() - seeds.len();
            &&& below >= 0
            &&& r@.skip(below) == seeds
            &&& r@.take(below).no_duplicates()
            &&& forall|pid: u32|
                #![trigger r@.take(below).contains(pid)]
                r@.take(below).contains(pid) <==> in_doomed_tree(
                    procs@,
                    text::lowered(exe_name@),
                    own,
                    pid,
                )
        }),
{
    let seeds = pids_named(procs, exe_name, own);
    let mut pairs: Vec<(u32, u32)> = Vec::new();
    let mut i: usize = 0;
    while i < procs.len()
        invariant
            i <= procs@.len(),
            pairs@ == forest(procs@.take(i as int)),
        decreases procs@.len() - i,
    {
        proof {
            assert(forest(procs@.take(i + 1)) =~= forest(procs@.take(i as int)).push(
                (procs@[i as int].pid, procs@[i as int].parent),
            ));
        }
        pairs.push((procs[i].pid, procs[i].parent));
        i = i + 1;
    }
    proof {
        assert(procs@.take(procs@.len() as int) =~= procs@);
    }
    let above = ancestor_pids(pairs.as_slice(), own);
    let below = descendant_pids(pairs.as_slice(), seeds.as_slice());
    let ghost name = text::lowered(exe_name@);
    let mut out: Vec<u32> = Vec::new();
    let mut k: usize = 0;
    while k < below.len()
        invariant
            k <= below@.len(),
            below@.no_duplicates(),
            out@.no_duplicates(),
            forall|pid: u32|
                #![trigger out@.contains(pid)]
                out@.contains(pid) <==> below@.take(k as int).contains(pid) && pid != own
                    && !above@.contains(pid),
        decreases below@.len() - k,
    {
        let pid: u32 = below[k];
        let ghost before = out@;
        let ghost seen = below@.take(k as int);
        if pid != own && !holds(&above, pid) {
            proof {
                if out@.contains(pid) {
                    let m = choose|m: int| 0 <= m < seen.len() && seen[m] == pid;
                    assert(below@[m] == below@[k as int]);
                }
            }
            out.push(pid);
        }
        proof {
            let next = below@.take(k + 1);
            assert(next =~= seen.push(pid));
            assert forall|p: u32|
                #![trigger out@.contains(p)]
                out@.contains(p) <==> next.contains(p) && p != own && !above@.contains(p) by {
                lemma_push_contains(seen, pid, p);
                lemma_push_contains(before, pid, p);
                assert(before.contains(p) <==> seen.contains(p) && p != own && !above@.contains(p));
            }
        }
        k = k + 1;
    }
    proof {
        assert(below@.take(below@.len() as int) =~= below@);
        assert forall|pid: u32|
            #![trigger out@.contains(pid)]
            out@.contains(pid) <==> in_doomed_tree(procs@, name, own, pid) by {
            if above@.contains(pid) {
                assert(is_ancestor_chain(forest(procs@), own, above@));
            }
            if is_ancestor(forest(procs@), own, pid) {
                let chain = choose|chain: Seq<u32>| #[trigger]
                    is_ancestor_chain(forest(procs@), own, chain) && chain.contains(pid);
                law_ancestor_chain_is_unique(forest(procs@), own, chain, above@);
            }
        }
    }
    let ghost tree = out@;
    let mut j: usize = 0;
    while j < seeds.len()
        invariant
            j <= seeds@.len(),
            out@ == tree + seeds@.take(j as int),
        decreases seeds@.len() - j,
    {
        proof {
            assert(tree + seeds@.take(j + 1) =~= (tree + seeds@.take(j as int)).push(
                seeds@[j as int],
            ));
        }
        out.push(seeds[j]);
        j = j + 1;
    }
    proof {
        assert(seeds@.take(seeds@.len() as int) =~= seeds@);
        assert(out@.take(tree.len() as int) =~= tree);
        assert(out@.skip(tree.len() as int) =~= seeds@);
    }
    out
}

proof fn lemma_push_contains(s: Seq<u32>, x: u32, p: u32)
    ensures
        s.push(x).contains(p) <==> s.contains(p) || p == x,
{
    if s.contains(p) {
        let m = choose|m: int| 0 <= m < s.len() && s[m] == p;
        assert(s.push(x)[m] == p);
    }
    if p == x {
        assert(s.push(x)[s.len() as int] == p);
    }
}

/// No process named in a list of victims is the calling one.
proof fn lemma_named_spares_own(procs: Seq<ProcessEntry>, name: Seq<char>, own: u32)
    ensures
        !named(procs, name, own).contains(own),
    decreases procs.len(),
{
    if procs.len() > 0 {
        lemma_named_spares_own(procs.drop_last(), name, own);
        if procs.last().name@ == name && procs.last().pid != own {
            lemma_push_contains(named(procs.drop_last(), name, own), procs.last().pid, own);
        }
    }
}

/// A tree kill never ends the calling process, and ends an ancestor of it only
/// where that ancestor bears the name itself.
pub proof fn law_tree_kill_spares_the_invoking_branch(
    procs: Seq<ProcessEntry>,
    name: Seq<char>,
    own: u32,
    pid: u32,
)
    ensures
        !in_doomed_tree(procs, name, own, own),
        !named(procs, name, own).contains(own),
        is_ancestor(forest(procs), own, pid) ==> !in_doomed_tree(procs, name, own, pid),
{
    lemma_named_spares_own(procs, name, own);
}

/// The tree below the seeds: a child of a seed or of a process of the tree is in
/// it, and so is nothing that a group with all those children lacks. No seed is,
/// and no process is its own child.
pub proof fn law_the_tree_goes_from_parent_to_child(
    procs: Seq<(u32, u32)>,
    seeds: Seq<u32>,
    child: u32,
    parent: u32,
    group: Set<u32>,
)
    ensures
        procs.contains((child, parent)) && child != parent && !seeds.contains(child) && (
        seeds.contains(parent) || is_descendant(procs, seeds, parent)) ==> is_descendant(
            procs,
            seeds,
            child,
        ),
        seeds.contains(child) ==> !is_descendant(procs, seeds, child),
        (forall|c: u32, p: u32| #[trigger]
            procs.contains((c, p)) && c != p && (seeds.contains(p) || group.contains(p))
                ==> seeds.contains(c) || group.contains(c)) && is_descendant(procs, seeds, child)
            ==> group.contains(child),
{
    if procs.contains((child, parent)) && child != parent && !seeds.contains(child) && (
    seeds.contains(parent) || is_descendant(procs, seeds, parent)) {
        let n: nat = if seeds.contains(parent) {
            0
        } else {
            choose|n: nat| #[trigger] reaches(procs, seeds, parent, n)
        };
        assert(reaches(procs, seeds, parent, n));
        assert(linked(procs, child, parent));
        assert(reaches(procs, seeds, child, n + 1));
    }
    if (forall|c: u32, p: u32| #[trigger]
        procs.contains((c, p)) && c != p && (seeds.contains(p) || group.contains(p))
            ==> seeds.contains(c) || group.contains(c)) && is_descendant(procs, seeds, child) {
        let n = choose|n: nat| #[trigger] reaches(procs, seeds, child, n);
        lemma_reached_is_in_group(procs, seeds, group, child, n);
    }
}

proof fn lemma_reached_is_in_group(
    procs: Seq<(u32, u32)>,
    seeds: Seq<u32>,
    group: Set<u32>,
    pid: u32,
    n: nat,
)
    requires
        forall|c: u32, p: u32| #[trigger]
            procs.contains((c, p)) && c != p && (seeds.contains(p) || group.contains(p))
                ==> seeds.contains(c) || group.contains(c),
        reaches(procs, seeds, pid, n),
    ensures
        seeds.contains(pid) || group.contains(pid),
    decreases n,
{
    if n > 0 {
        let parent = choose|parent: u32| #[trigger]
            linked(procs, pid, parent) && reaches(procs, seeds, parent, (n - 1) as nat);
        lemma_reached_is_in_group(procs, seeds, group, parent, (n - 1) as nat);
        assert(procs.contains((pid, parent)));
    }
}

/// The first entry for a process gives its parent: a later one changes nothing,
/// and neither does one for another process.
pub proof fn law_the_first_entry_gives_the_parent(
    procs: Seq<(u32, u32)>,
    entry: (u32, u32),
    pid: u32,
)
    ensures
        parent_of(Seq::empty(), pid) is None,
        entry.0 != pid ==> parent_of(procs.push(entry), pid) == parent_of(procs, pid),
        parent_of(procs, pid) is Some ==> parent_of(procs.push(entry), pid) == parent_of(
            procs,
            pid,
        ),
        entry.0 == pid && parent_of(procs, pid) is None ==> parent_of(procs.push(entry), pid)
            == Some(entry.1),
{
    assert(procs.push(entry).drop_last() =~= procs);
    assert(procs.push(entry).last() == entry);
}

/// The ancestors of a process are its parent, its parent's parent and so on, each
/// once. The walk ends at a process without an entry, at parent 0, and before a
/// process it came from, and nowhere else.
pub proof fn law_ancestors_go_from_child_to_parent(
    procs: Seq<(u32, u32)>,
    start: u32,
    chain: Seq<u32>,
    i: int,
    j: int,
)
    requires
        is_ancestor_chain(procs, start, chain),
    ensures
        chain.len() > 0 ==> parent_of(procs, start) == Some(chain[0]),
        chain.len() == 0 ==> parent_of(procs, start) is None || parent_of(procs, start) == Some(
            0u32,
        ) || parent_of(procs, start) == Some(start),
        0 < i < chain.len() ==> parent_of(procs, chain[i - 1]) == Some(chain[i]),
        chain.len() > 0 ==> match parent_of(procs, chain.last()) {
            Some(p) => p == 0 || p == start || chain.contains(p),
            None => true,
        },
        0 <= i < chain.len() ==> chain[i] != 0 && chain[i] != start,
        0 <= i < j < chain.len() ==> chain[i] != chain[j],
{
    if chain.len() > 0 {
        assert(parent_of(procs, step(start, chain, 0)) == Some(chain[0]));
        assert(step(start, chain, chain.len() as int) == chain.last());
    }
    if 0 < i < chain.len() {
        assert(step(start, chain, i) == chain[i - 1]);
        assert(parent_of(procs, step(start, chain, i)) == Some(chain[i]));
    }
    if 0 <= i < j < chain.len() {
        assert(!chain.take(j).contains(chain[j]));
        assert(chain.take(j)[i] == chain[i]);
    }
}

/// Processes are picked one by one, in the order of the list: those with the
/// name, but not the one that asks.
pub proof fn law_processes_are_picked_by_name(
    procs: Seq<ProcessEntry>,
    p: ProcessEntry,
    name: Seq<char>,
    own: u32,
)
    ensures
        named(Seq::empty(), name, own).len() == 0,
        p.name@ == name && p.pid != own ==> named(procs.push(p), name, own) == named(
            procs,
            name,
            own,
        ).push(p.pid),
        p.name@ != name || p.pid == own ==> named(procs.push(p), name, own) == named(
            procs,
            name,
            own,
        ),
        forest(procs.push(p)) == forest(procs).push((p.pid, p.parent)),
{
    assert(procs.push(p).drop_last() =~= procs);
    assert(procs.push(p).last() == p);
    assert(forest(procs.push(p)) =~= forest(procs).push((p.pid, p.parent)));
}

/// A process below the named ones is ended with them, unless it is the one that
/// asks or above it.
pub proof fn law_the_tree_is_ended_but_for_the_asking_branch(
    procs: Seq<ProcessEntry>,
    name: Seq<char>,
    own: u32,
    pid: u32,
    chain: Seq<u32>,
)
    requires
        is_ancestor_chain(forest(procs), own, chain),
    ensures
        in_doomed_tree(procs, name, own, pid) <==> is_descendant(
            forest(procs),
            named(procs, name, own),
            pid,
        ) && pid != own && !chain.contains(pid),
{
    if is_ancestor(forest(procs), own, pid) {
        let other = choose|other: Seq<u32>| #[trigger]
            is_ancestor_chain(forest(procs), own, other) && other.contains(pid);
        law_ancestor_chain_is_unique(forest(procs), own, chain, other);
    }
}

/// The name in a process's record ends at its first zero unit.
pub proof fn law_names_end_at_the_first_zero(name: Seq<u16>, rest: Seq<u16>)
    requires
        forall|i: int| 0 <= i < name.len() ==> #[trigger] name[i] != 0,
    ensures
        name_units(name) == name,
        name_units(name + seq![0u16] + rest) == name,
    decreases name.len(),
{
    let all = name + seq![0u16] + rest;
    if name.len() == 0 {
        assert(all[0] == 0);
        assert(name_units(name) =~= name);
        assert(name_units(all) =~= name);
    } else {
        law_names_end_at_the_first_zero(name.skip(1), rest);
        assert(all[0] == name[0]);
        assert(all.skip(1) =~= name.skip(1) + seq![0u16] + rest);
        assert(seq![name[0]] + name.skip(1) =~= name);
    }
}

} // verus!
