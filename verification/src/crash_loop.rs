//! Crash-loop accounting: how many exits fell into the last stretch of time.
//!
//! Times are nanoseconds on a monotonic clock.
use vstd::prelude::*;

verus! {

/// More than this many exits within [`CRASH_WINDOW_NS`] is a crash loop.
pub const CRASH_LIMIT: usize = 3;

/// The stretch of time exits are counted in: 20 seconds.
pub const CRASH_WINDOW_NS: u64 = 20_000_000_000;

/// Whether an exit at `t` still counts at `now`.
pub open spec fn is_recent(t: u64, now: u64) -> bool {
    now - t < CRASH_WINDOW_NS
}

/// The times that still count at `now`, in order.
pub open spec fn recent(times: Seq<u64>, now: u64) -> Seq<u64>
    decreases times.len(),
{
    if times.len() == 0 {
        Seq::empty()
    } else {
        let rest = recent(times.drop_last(), now);
        if is_recent(times.last(), now) {
            rest.push(times.last())
        } else {
            rest
        }
    }
}

/// The exits counted after one more at `now`.
pub open spec fn counted(times: Seq<u64>, now: u64) -> Seq<u64> {
    recent(times, now).push(now)
}

/// The exits counted after exits at the given times, in order.
pub open spec fn counted_all(exits: Seq<u64>) -> Seq<u64>
    decreases exits.len(),
{
    if exits.len() == 0 {
        Seq::empty()
    } else {
        counted(counted_all(exits.drop_last()), exits.last())
    }
}

/// Account for an exit at `now`: forget the exits that no longer count, and
/// count this one. Returns whether this is a crash loop.
pub fn note_exit(times: &mut Vec<u64>, now: u64) -> (looping: bool)
    ensures
        final(times)@ == counted(old(times)@, now),
        looping == (final(times)@.len() > CRASH_LIMIT),
{
    let mut kept: Vec<u64> = Vec::new();
    let mut i: usize = 0;
    while i < times.len()
        invariant
            i <= times@.len(),
            times@ == old(times)@,
            kept@ == recent(times@.take(i as int), now),
        decreases times@.len() - i,
    {
        proof {
            assert(times@.take(i + 1).drop_last() =~= times@.take(i as int));
            assert(times@.take(i + 1).last() == times@[i as int]);
        }
        if now.saturating_sub(times[i]) < CRASH_WINDOW_NS {
            kept.push(times[i]);
        }
        i = i + 1;
    }
    proof {
        assert(times@.take(times@.len() as int) =~= times@);
    }
    kept.push(now);
    *times = kept;
    times.len() > CRASH_LIMIT
}

/// What counts later counted earlier.
proof fn lemma_recent_of_recent(times: Seq<u64>, t: u64, now: u64)
    requires
        t <= now,
    ensures
        recent(recent(times, t), now) == recent(times, now),
    decreases times.len(),
{
    if times.len() > 0 {
        let init = times.drop_last();
        lemma_recent_of_recent(init, t, now);
        let rest = recent(init, t);
        if is_recent(times.last(), t) {
            let r = rest.push(times.last());
            assert(r.drop_last() =~= rest);
        }
    }
}

/// Exits at times that never go back are counted by how long ago they were: the
/// count after the last one is the number of exits, of all there ever were,
/// that fell into the window before it.
pub proof fn law_crash_count_is_of_the_last_window(exits: Seq<u64>)
    requires
        forall|i: int, j: int| 0 <= i <= j < exits.len() ==> exits[i] <= exits[j],
        exits.len() > 0,
    ensures
        counted_all(exits) == recent(exits, exits.last()),
    decreases exits.len(),
{
    let init = exits.drop_last();
    let now = exits.last();
    if init.len() > 0 {
        assert forall|i: int, j: int| 0 <= i <= j < init.len() implies init[i] <= init[j] by {
            assert(init[i] == exits[i] && init[j] == exits[j]);
        }
        law_crash_count_is_of_the_last_window(init);
        assert(init.last() == exits[exits.len() - 2]);
        assert(now == exits[exits.len() - 1]);
        lemma_recent_of_recent(init, init.last(), now);
    } else {
        assert(counted_all(init) =~= Seq::<u64>::empty());
        assert(recent(init, now) =~= Seq::<u64>::empty());
        assert(recent(counted_all(init), now) =~= Seq::<u64>::empty());
    }
    assert(is_recent(now, now));
    assert(recent(exits, now) == recent(init, now).push(now));
    assert(counted_all(exits) == recent(counted_all(init), now).push(now));
}

/// A loop of exits in one window is seen at the first exit past the limit:
/// exits that all fall into one window are all counted.
pub proof fn law_crash_loop_is_seen_at_the_limit(exits: Seq<u64>)
    requires
        forall|i: int, j: int| 0 <= i <= j < exits.len() ==> exits[i] <= exits[j],
        exits.len() > 0,
        exits.last() - exits[0] < CRASH_WINDOW_NS,
    ensures
        counted_all(exits).len() == exits.len(),
        counted_all(exits).len() > CRASH_LIMIT <==> exits.len() > CRASH_LIMIT,
{
    law_crash_count_is_of_the_last_window(exits);
    lemma_all_recent(exits, exits.last());
}

proof fn lemma_all_recent(times: Seq<u64>, now: u64)
    requires
        forall|i: int, j: int| 0 <= i <= j < times.len() ==> times[i] <= times[j],
        times.len() > 0 ==> now - times[0] < CRASH_WINDOW_NS,
    ensures
        recent(times, now) == times,
    decreases times.len(),
{
    if times.len() > 0 {
        let init = times.drop_last();
        if init.len() > 0 {
            assert(init[0] == times[0]);
            assert forall|i: int, j: int| 0 <= i <= j < init.len() implies init[i] <= init[j] by {
                assert(init[i] == times[i] && init[j] == times[j]);
            }
        }
        lemma_all_recent(init, now);
        assert(times[0] <= times[times.len() - 1]);
        assert(times =~= init.push(times.last()));
    }
}

/// An exit counts for less than twenty seconds, and each is judged on its own, in
/// order; an exit counts from the moment it happens.
pub proof fn law_exits_count_for_twenty_seconds(times: Seq<u64>, t: u64, now: u64)
    ensures
        recent(Seq::empty(), now).len() == 0,
        now < t + 20_000_000_000 ==> recent(times.push(t), now) == recent(times, now).push(t),
        now >= t + 20_000_000_000 ==> recent(times.push(t), now) == recent(times, now),
        counted(times, now) == recent(times, now).push(now),
{
    assert(times.push(t).drop_last() =~= times);
    assert(times.push(t).last() == t);
}

/// The fourth exit within twenty seconds is a crash loop; the third is not.
pub proof fn law_the_fourth_exit_is_a_loop(exits: Seq<u64>)
    requires
        forall|i: int, j: int| 0 <= i <= j < exits.len() ==> exits[i] <= exits[j],
        exits.len() > 0,
        exits.last() < exits[0] + 20_000_000_000,
    ensures
        counted_all(exits).len() > CRASH_LIMIT <==> exits.len() >= 4,
{
    law_crash_loop_is_seen_at_the_limit(exits);
}

/// How many exits within how many nanoseconds are no loop yet.
pub proof fn law_a_loop_has_its_limit()
    ensures
        CRASH_LIMIT == 3,
        CRASH_WINDOW_NS == 20_000_000_000,
{
}

} // verus!
