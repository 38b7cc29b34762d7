//! The shell process itself: its test flags and its heartbeat of log lines.
use vstd::prelude::*;

use crate::number;
use crate::text;

verus! {

/// The test flags: after how many seconds to crash or to exit.
#[derive(Debug, Clone, Copy, PartialEq, Eq, Structural)]
pub struct Options {
    pub crash_after: Option<u64>,
    pub exit_after: Option<u64>,
}

/// The number behind the last argument that starts with `prefix`: none where
/// there is no such argument, or where what follows the prefix is no number.
pub open spec fn last_number(args: Seq<Seq<char>>, prefix: Seq<char>) -> Option<int>
    decreases args.len(),
{
    if args.len() == 0 {
        None
    } else if text::starts_with(args.last(), prefix) {
        number::decimal_number(args.last().skip(prefix.len() as int), u64::MAX as int)
    } else {
        last_number(args.drop_last(), prefix)
    }
}

/// A number as a specification value.
pub open spec fn as_number(n: Option<u64>) -> Option<int> {
    match n {
        Some(v) => Some(v as int),
        None => None,
    }
}

impl Default for Options {
    fn default() -> (r: Self)
        ensures
            r.crash_after is None,
            r.exit_after is None,
    {
        Options { crash_after: None, exit_after: None }
    }
}

impl Options {
    /// The options of an argument list: `--crash-after=<secs>` and
    /// `--exit-after=<secs>`, the last of each; anything else is ignored.
    pub fn from_args(args: &Vec<String>) -> (r: Self)
        ensures
            as_number(r.crash_after) == last_number(text::texts(args@), "--crash-after="@),
            as_number(r.exit_after) == last_number(text::texts(args@), "--exit-after="@),
    {
        let mut opts = Options { crash_after: None, exit_after: None };
        let mut i: usize = 0;
        let ghost all = text::texts(args@);
        while i < args.len()
            invariant
                i <= args@.len(),
                all == text::texts(args@),
                as_number(opts.crash_after) == last_number(
                    all.take(i as int),
                    "--crash-after="@,
                ),
                as_number(opts.exit_after) == last_number(all.take(i as int), "--exit-after="@),
            decreases args@.len() - i,
        {
            let arg = args[i].as_str();
            proof {
                assert(all.take(i + 1).drop_last() =~= all.take(i as int));
                assert(all.take(i + 1).last() == arg@);
            }
            if let Some(v) = text::strip_prefix(arg, "--crash-after=") {
                proof {
                    lemma_flags_differ(arg@);
                }
                opts.crash_after = number::parse_number(v.as_str(), u64::MAX);
            } else if let Some(v) = text::strip_prefix(arg, "--exit-after=") {
                opts.exit_after = number::parse_number(v.as_str(), u64::MAX);
            }
            i = i + 1;
        }
        proof {
            assert(all.take(all.len() as int) =~= all);
        }
        opts
    }

    /// What the shell does when it has run for `elapsed` seconds.
    pub fn tick(&self, elapsed: u64) -> (r: Tick)
        ensures
            r == if self.crash_after is Some && elapsed >= self.crash_after->0 {
                Tick::Crash
            } else if self.exit_after is Some && elapsed >= self.exit_after->0 {
                Tick::Exit
            } else {
                Tick::Sleep
            },
    {
        if let Some(after) = self.crash_after {
            if elapsed >= after {
                return Tick::Crash;
            }
        }
        if let Some(after) = self.exit_after {
            if elapsed >= after {
                return Tick::Exit;
            }
        }
        Tick::Sleep
    }
}

/// No argument is both flags.
proof fn lemma_flags_differ(arg: Seq<char>)
    requires
        text::starts_with(arg, "--crash-after="@),
    ensures
        !text::starts_with(arg, "--exit-after="@),
{
    reveal_strlit("--crash-after=");
    reveal_strlit("--exit-after=");
    let c = "--crash-after="@;
    let e = "--exit-after="@;
    assert(c[2] == 'c');
    assert(e[2] == 'e');
    assert(arg.take(c.len() as int)[2] == arg[2]);
    if text::starts_with(arg, e) {
        assert(arg.take(e.len() as int)[2] == arg[2]);
    }
}

/// What the shell does next.
#[derive(Debug, Clone, Copy, PartialEq, Eq, Structural)]
pub enum Tick {
    /// Crash (test flag).
    Crash,
    /// Exit cleanly (test flag).
    Exit,
    /// Sleep a second.
    Sleep,
}

/// Whether the shell logs that it is alive after that many seconds: every tenth.
pub fn logs_alive(ticks: u64) -> (r: bool)
    ensures
        r == (ticks % 10 == 0),
{
    ticks % 10 == 0
}

/// The last argument of the flag counts: an argument that is the flag and a
/// number sets it, whatever stood before; one that is the flag and no number
/// unsets it; and any other argument leaves it as it was.
pub proof fn law_the_last_flag_counts(
    args: Seq<Seq<char>>,
    arg: Seq<char>,
    prefix: Seq<char>,
    value: Seq<char>,
)
    ensures
        last_number(Seq::empty(), prefix) is None,
        last_number(args.push(prefix + value), prefix) == number::decimal_number(
            value,
            18_446_744_073_709_551_615,
        ),
        (forall|rest: Seq<char>| arg != #[trigger] (prefix + rest)) ==> last_number(
            args.push(arg),
            prefix,
        ) == last_number(args, prefix),
{
    let all = args.push(prefix + value);
    assert(all.last() == prefix + value);
    assert((prefix + value).take(prefix.len() as int) =~= prefix);
    assert((prefix + value).skip(prefix.len() as int) =~= value);
    let other = args.push(arg);
    assert(other.last() == arg);
    assert(other.drop_last() =~= args);
    if text::starts_with(arg, prefix) {
        assert(arg =~= prefix + arg.skip(prefix.len() as int));
    }
}

} // verus!
