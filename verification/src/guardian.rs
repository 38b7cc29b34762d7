//! The mutual-supervision protocol between the watchdog and the shell.
//!
//! The watchdog supervises the shell (relaunch on exit, crash-loop fallback);
//! the shell watches the watchdog process and relaunches it if it dies. The
//! relaunched watchdog kills the stray shell and spawns a fresh one, so the
//! pair converges to exactly one of each.
//!
//! Both sides speak through environment variables on the processes they spawn:
//! [`WATCHDOG_PID_ENV`] tells a shell which process to watch, and
//! [`RELAUNCH_STATE_ENV`] threads the relaunch accounting through the spawn
//! chain. Without it, a watchdog that crashes on startup would flicker for
//! ever: every per-process counter is reset by the relaunch it counts.
use vstd::prelude::*;

use crate::number;
use crate::text;

verus! {

/// Environment variable carrying the watchdog's PID to the shell it spawns.
pub const WATCHDOG_PID_ENV: &'static str = "WR_WATCHDOG_PID";

/// Environment variable carrying [`RelaunchState`] (`"<count>:<first-unix-secs>"`).
pub const RELAUNCH_STATE_ENV: &'static str = "WR_WD_RELAUNCH_STATE";

/// More than this many watchdog relaunches within [`RELAUNCH_WINDOW_SECS`]
/// means "give up and restore Windows".
pub const RELAUNCH_LIMIT: u32 = 3;

pub const RELAUNCH_WINDOW_SECS: u64 = 60;

/// Watchdog-relaunch accounting, threaded through the spawn chain as
/// `"<count>:<first-unix-secs>"` in [`RELAUNCH_STATE_ENV`].
#[derive(Debug, Clone, Copy, PartialEq, Eq, Structural)]
pub struct RelaunchState {
    /// Relaunches performed in the current window.
    pub count: u32,
    /// Unix seconds of the first relaunch in the current window.
    pub first_unix_secs: u64,
}

/// The state of a fresh session: no relaunches yet.
pub open spec fn fresh() -> RelaunchState {
    RelaunchState { count: 0, first_unix_secs: 0 }
}

/// The position of the first colon, or the length of the text without one.
pub open spec fn colon_at(s: Seq<char>) -> int
    decreases s.len(),
{
    if s.len() == 0 || s[0] == ':' {
        0
    } else {
        1 + colon_at(s.skip(1))
    }
}

/// The state a text stands for: two numbers with a colon between them, the
/// first within 32 bits and the second within 64.
pub open spec fn state_in(s: Seq<char>) -> Option<RelaunchState> {
    let at = colon_at(s);
    if at >= s.len() {
        None
    } else {
        match (
            number::decimal_number(s.take(at), u32::MAX as int),
            number::decimal_number(s.skip(at + 1), u64::MAX as int),
        ) {
            (Some(count), Some(first)) => Some(
                RelaunchState { count: count as u32, first_unix_secs: first as u64 },
            ),
            _ => None,
        }
    }
}

/// The state an environment variable stands for: a fresh one where it is unset
/// or garbage.
pub open spec fn state_of(raw: Option<Seq<char>>) -> RelaunchState {
    match raw {
        Some(s) => match state_in(s) {
            Some(state) => state,
            None => fresh(),
        },
        None => fresh(),
    }
}

/// The text of a state.
pub open spec fn env_text(state: RelaunchState) -> Seq<char> {
    number::decimal_text(state.count as nat) + seq![':'] + number::decimal_text(
        state.first_unix_secs as nat,
    )
}

/// Whether a relaunch at `now` falls outside the current window.
pub open spec fn window_over(state: RelaunchState, now: u64) -> bool {
    state.count == 0 || now - state.first_unix_secs > RELAUNCH_WINDOW_SECS
}

/// The state after one more relaunch at `now`.
pub open spec fn bumped(state: RelaunchState, now: u64) -> RelaunchState {
    if window_over(state, now) {
        RelaunchState { count: 1, first_unix_secs: now }
    } else {
        RelaunchState {
            count: (state.count + 1) as u32,
            first_unix_secs: state.first_unix_secs,
        }
    }
}

/// The state after relaunches at the given times, in order.
pub open spec fn bumped_all(state: RelaunchState, times: Seq<u64>) -> RelaunchState
    decreases times.len(),
{
    if times.len() == 0 {
        state
    } else {
        bumped(bumped_all(state, times.drop_last()), times.last())
    }
}

impl Default for RelaunchState {
    fn default() -> (r: Self)
        ensures
            r == fresh(),
    {
        RelaunchState { count: 0, first_unix_secs: 0 }
    }
}

/// `colon_at` is the first colon.
proof fn lemma_colon_at(s: Seq<char>)
    ensures
        0 <= colon_at(s) <= s.len(),
        colon_at(s) < s.len() ==> s[colon_at(s)] == ':',
        forall|i: int| 0 <= i < colon_at(s) ==> #[trigger] s[i] != ':',
    decreases s.len(),
{
    if s.len() > 0 && s[0] != ':' {
        let rest = s.skip(1);
        lemma_colon_at(rest);
        assert forall|i: int| 0 <= i < colon_at(s) implies #[trigger] s[i] != ':' by {
            if i > 0 {
                assert(s[i] == rest[i - 1]);
            }
        }
    }
}

/// The first colon is the only position with a colon and none before it.
proof fn lemma_colon_at_unique(s: Seq<char>, at: int)
    requires
        0 <= at < s.len(),
        s[at] == ':',
        forall|i: int| 0 <= i < at ==> #[trigger] s[i] != ':',
    ensures
        colon_at(s) == at,
{
    lemma_colon_at(s);
    if colon_at(s) < at {
        assert(s[colon_at(s)] != ':');
    } else if colon_at(s) > at {
        assert(s[at] != ':');
    }
}

impl RelaunchState {
    /// Parse the environment-variable form; `None` input (variable unset) or
    /// garbage both mean "fresh session, no relaunches yet".
    pub fn parse(raw: Option<&str>) -> (r: Self)
        ensures
            r == state_of(
                match raw {
                    Some(s) => Some(s@),
                    None => None,
                },
            ),
    {
        let s: &str = match raw {
            Some(s) => s,
            None => {
                return RelaunchState { count: 0, first_unix_secs: 0 };
            },
        };
        let chars = text::chars_of(s);
        let n: usize = chars.len();
        let mut at: usize = 0;
        while at < n && chars[at] != ':'
            invariant
                at <= n,
                n == chars@.len(),
                forall|i: int| 0 <= i < at ==> #[trigger] chars@[i] != ':',
            decreases n - at,
        {
            at = at + 1;
        }
        if at == n {
            proof {
                lemma_colon_at(chars@);
            }
            return RelaunchState { count: 0, first_unix_secs: 0 };
        }
        proof {
            lemma_colon_at_unique(chars@, at as int);
            assert(chars@.subrange(0, at as int) =~= chars@.take(at as int));
            assert(chars@.subrange(at + 1, n as int) =~= chars@.skip(at + 1));
        }
        let count: Option<u64> = number::parse_decimal(&chars, 0, at, u32::MAX as u64);
        let first: Option<u64> = number::parse_decimal(&chars, at + 1, n, u64::MAX);
        match (count, first) {
            (Some(count), Some(first)) => {
                RelaunchState { count: count as u32, first_unix_secs: first }
            },
            _ => RelaunchState { count: 0, first_unix_secs: 0 },
        }
    }

    /// Account for one more relaunch happening at `now_unix_secs`. Starts a new
    /// window if the current one has expired.
    #[must_use]
    pub fn bump(self, now_unix_secs: u64) -> (r: Self)
        requires
            !window_over(self, now_unix_secs) ==> self.count < u32::MAX,
        ensures
            r == bumped(self, now_unix_secs),
    {
        if self.count == 0 || now_unix_secs.saturating_sub(self.first_unix_secs)
            > RELAUNCH_WINDOW_SECS {
            RelaunchState { count: 1, first_unix_secs: now_unix_secs }
        } else {
            RelaunchState { count: self.count + 1, first_unix_secs: self.first_unix_secs }
        }
    }

    /// True once relaunching should stop in favour of restoring Windows.
    pub fn exhausted(&self) -> (r: bool)
        ensures
            r == (self.count > RELAUNCH_LIMIT),
    {
        self.count > RELAUNCH_LIMIT
    }

    /// The environment-variable form, for the next process in the chain.
    pub fn to_env_value(self) -> (r: String)
        ensures
            r@ == env_text(self),
    {
        let mut out = String::new();
        number::push_decimal(&mut out, self.count as u64);
        proof {
            assert(Seq::<char>::empty() + number::decimal_text(self.count as nat)
                =~= number::decimal_text(self.count as nat));
        }
        out.push(':');
        proof {
            assert(out@ =~= number::decimal_text(self.count as nat) + seq![':']);
        }
        number::push_decimal(&mut out, self.first_unix_secs);
        out
    }
}

/// The accounting survives the spawn chain: reading back the environment form
/// of any state gives that state.
pub proof fn law_relaunch_state_round_trips(state: RelaunchState)
    ensures
        state_of(Some(env_text(state))) == state,
{
    let count = number::decimal_text(state.count as nat);
    let first = number::decimal_text(state.first_unix_secs as nat);
    let s = env_text(state);
    number::lemma_decimal_text(state.count as nat);
    number::law_decimal_round_trips(state.count as nat, u32::MAX as int);
    number::law_decimal_round_trips(state.first_unix_secs as nat, u64::MAX as int);
    assert forall|i: int| 0 <= i < count.len() implies #[trigger] s[i] != ':' by {
        assert(s[i] == count[i]);
        assert(number::is_digit(count[i]));
    }
    lemma_colon_at_unique(s, count.len() as int);
    assert(s.take(count.len() as int) =~= count);
    assert(s.skip(count.len() as int + 1) =~= first);
}

/// Relaunches that all fall into one window are counted one by one, so the
/// accounting is exhausted exactly when there were more than the limit.
pub proof fn law_exhausted_past_the_limit_in_one_window(times: Seq<u64>)
    requires
        times.len() <= u32::MAX,
        forall|i: int|
            0 <= i < times.len() ==> #[trigger] times[i] - times[0] <= RELAUNCH_WINDOW_SECS,
    ensures
        bumped_all(fresh(), times).count == times.len(),
        times.len() > 0 ==> bumped_all(fresh(), times).first_unix_secs == times[0],
        bumped_all(fresh(), times).count > RELAUNCH_LIMIT <==> times.len() > RELAUNCH_LIMIT,
    decreases times.len(),
{
    if times.len() > 0 {
        let init = times.drop_last();
        assert forall|i: int| 0 <= i < init.len() implies #[trigger] init[i] - init[0]
            <= RELAUNCH_WINDOW_SECS by {
            assert(init[i] == times[i]);
            assert(init[0] == times[0]);
        }
        law_exhausted_past_the_limit_in_one_window(init);
        assert(times.last() == times[times.len() - 1]);
        if init.len() > 0 {
            assert(init[0] == times[0]);
        }
    }
}

/// A relaunch after the window starts a new one, in which it is the first.
pub proof fn law_expired_windows_start_over(state: RelaunchState, now: u64)
    requires
        now > state.first_unix_secs + RELAUNCH_WINDOW_SECS,
    ensures
        bumped(state, now) == (RelaunchState { count: 1, first_unix_secs: now }),
        bumped(state, now).count <= RELAUNCH_LIMIT,
{
}

/// A relaunch within sixty seconds of the first in its window counts on; one after
/// that, or the first ever, starts a window of its own.
pub proof fn law_relaunches_count_for_a_minute(state: RelaunchState, now: u64)
    requires
        state.count < u32::MAX,
    ensures
        state.count > 0 && now <= state.first_unix_secs + 60 ==> bumped(state, now).count
            == state.count + 1 && bumped(state, now).first_unix_secs == state.first_unix_secs,
        state.count == 0 || now > state.first_unix_secs + 60 ==> bumped(state, now).count == 1
            && bumped(state, now).first_unix_secs == now,
        window_over(state, now) <==> state.count == 0 || now > state.first_unix_secs + 60,
{
}

/// The fourth relaunch in one window is one too many; the third is not.
pub proof fn law_the_fourth_relaunch_is_one_too_many(state: RelaunchState)
    ensures
        state.count > RELAUNCH_LIMIT <==> state.count >= 4,
        fresh().count == 0,
{
}

/// A state is read from the two numbers around the first colon; a text without
/// one, or with anything but numbers around it, is a fresh state, and so is none.
pub proof fn law_states_are_two_numbers(a: Seq<char>, b: Seq<char>, s: Seq<char>)
    requires
        !a.contains(':'),
    ensures
        ({
            let r = state_of(Some(a + seq![':'] + b));
            let count = number::decimal_number(a, 0xffff_ffff);
            let first = number::decimal_number(b, 0xffff_ffff_ffff_ffff);
            &&& count is Some && first is Some ==> r.count == (count->0) && r.first_unix_secs == (
            first->0)
            &&& count is None || first is None ==> r == fresh()
        }),
        !s.contains(':') ==> state_of(Some(s)) == fresh(),
        state_of(None) == fresh(),
{
    let t = a + seq![':'] + b;
    assert forall|i: int| 0 <= i < a.len() implies #[trigger] t[i] != ':' by {
        assert(t[i] == a[i]);
    }
    assert(t[a.len() as int] == ':');
    lemma_colon_at_unique(t, a.len() as int);
    assert(t.take(a.len() as int) =~= a);
    assert(t.skip(a.len() as int + 1) =~= b);
    number::law_only_digits_are_numbers(a, 0xffff_ffff);
    number::law_only_digits_are_numbers(b, 0xffff_ffff_ffff_ffff);
    if !s.contains(':') {
        lemma_colon_at(s);
        if colon_at(s) < s.len() {
            assert(s[colon_at(s)] == ':');
        }
    }
}

/// A state is written as its two numbers with a colon between them.
pub proof fn law_states_are_written_as_two_numbers(state: RelaunchState)
    ensures
        env_text(state) == number::decimal_text(state.count as nat) + seq![':']
            + number::decimal_text(state.first_unix_secs as nat),
{
}

/// The variables a relaunch hands on, and how many relaunches count within how
/// many seconds.
pub proof fn law_the_guardian_has_its_names_and_limits()
    ensures
        WATCHDOG_PID_ENV@ == "WR_WATCHDOG_PID"@,
        RELAUNCH_STATE_ENV@ == "WR_WD_RELAUNCH_STATE"@,
        RELAUNCH_LIMIT == 3,
        RELAUNCH_WINDOW_SECS == 60,
{
}

} // verus!
