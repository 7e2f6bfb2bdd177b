//! What the process table says of one process, and the lifecycle state that follows from it.
//!
//! Reading the process table is the caller's business. The caller hands the
//! plain facts over in a [`ProcessFacts`]; everything decided from them is
//! decided here.

use crate::firefox::State;
use crate::text::{chars_of, ends_with, same_text};
use procfs::process::ProcState;
use vstd::prelude::*;

verus! {

/// Seconds a fresh instance is left alone before it counts as ready.
pub const WARMUP_TIME: u64 = 300;

/// One reading of a process's entry in the process table.
#[derive(Debug, Clone, PartialEq, Eq)]
pub struct ProcessFacts {
    /// The entry is still that of the process first looked up, and no zombie.
    pub alive: bool,
    /// The command line, one string per argument; `None` where it could not be read.
    pub cmdline: Option<Vec<String>>,
    /// When the process started, in clock ticks since boot.
    pub starttime: u64,
    /// Clock ticks per second, as the system reports them.
    pub ticks_per_second: i64,
    /// The wall clock, in seconds since the epoch.
    pub now: u64,
    /// When the system booted, in seconds since the epoch; `None` where it could not be read.
    pub boot_time: Option<u64>,
    /// The state letter of a fresh status reading; `None` where it could not be read.
    pub stat_state: Option<char>,
}

/// A reading as plain values.
pub struct ProcessFactsView {
    pub alive: bool,
    pub cmdline: Option<Seq<Seq<char>>>,
    pub starttime: u64,
    pub ticks_per_second: i64,
    pub now: u64,
    pub boot_time: Option<u64>,
    pub stat_state: Option<char>,
}

impl DeepView for ProcessFacts {
    type V = ProcessFactsView;

    open spec fn deep_view(&self) -> ProcessFactsView {
        ProcessFactsView {
            alive: self.alive,
            cmdline: self.cmdline.deep_view(),
            starttime: self.starttime,
            ticks_per_second: self.ticks_per_second,
            now: self.now,
            boot_time: self.boot_time,
            stat_state: self.stat_state,
        }
    }
}

/// Asks `procfs::process::ProcState::from_char` whether a state letter means
/// "stopped". That function maps `'T'`, and no other letter, to `Stopped`.
#[verifier::external_body]
fn is_stopped(state: char) -> (r: bool)
    ensures
        r == (state == 'T'),
{
    matches!(ProcState::from_char(state), Some(ProcState::Stopped))
}

/// Seconds the process has run: now, less its start (ticks turned into
/// seconds, rounded down), less the boot time. There is none where the boot
/// time is unknown, the tick rate is not positive, or the clocks put the
/// start in the future.
pub open spec fn uptime_of(f: ProcessFactsView) -> Option<u64> {
    match f.boot_time {
        Some(boot) => if f.ticks_per_second > 0 && f.starttime / (f.ticks_per_second as u64) + boot
            <= f.now {
            Some((f.now - f.starttime / (f.ticks_per_second as u64) - boot) as u64)
        } else {
            None
        },
        None => None,
    }
}

/// Computes the uptime of the process that `p` describes.
pub fn get_uptime(p: &ProcessFacts) -> (r: Option<u64>)
    ensures
        r == uptime_of(p.deep_view()),
{
    match p.boot_time {
        Some(boot) => {
            if p.ticks_per_second <= 0 {
                return None;
            }
            let rate: u64 = p.ticks_per_second as u64;
            let started: u64 = p.starttime / rate;
            if started > p.now {
                return None;
            }
            let since_boot: u64 = p.now - started;
            if boot > since_boot {
                return None;
            }
            Some(since_boot - boot)
        },
        None => None,
    }
}

/// Whether a command line is that of the browser started for profile `name`:
/// the first argument ends with `/firefox` and the last one is `name`.
pub open spec fn is_instance(args: Seq<Seq<char>>, name: Seq<char>) -> bool {
    &&& args.len() > 0
    &&& "/firefox"@.is_suffix_of(args[0])
    &&& args.last() == name
}

/// The lifecycle state that a reading supports for profile `name`.
///
/// No reading, a dead process, an unreadable or foreign command line, an
/// uptime that cannot be computed, or (past the warm-up) an unreadable
/// status all mean `Down`. Otherwise the process is `Warming` until its
/// uptime reaches [`WARMUP_TIME`], and after that `Suspended` if it is
/// stopped and `Warmed` if it is not.
pub open spec fn state_of(facts: Option<ProcessFactsView>, name: Seq<char>) -> State {
    match facts {
        Some(f) => if f.alive && f.cmdline is Some && is_instance(f.cmdline->0, name) {
            match uptime_of(f) {
                Some(uptime) => if uptime < WARMUP_TIME {
                    State::Warming
                } else {
                    match f.stat_state {
                        Some(letter) => if letter == 'T' {
                            State::Suspended
                        } else {
                            State::Warmed
                        },
                        None => State::Down,
                    }
                },
                None => State::Down,
            }
        } else {
            State::Down
        },
        None => State::Down,
    }
}

/// Derives the lifecycle state of profile `name` from a reading of its process.
pub fn get_state(facts: &Option<ProcessFacts>, name: &str) -> (r: State)
    ensures
        r == state_of(facts.deep_view(), name@),
{
    match facts {
        Some(p) => {
            if !p.alive {
                return State::Down;
            }
            match &p.cmdline {
                Some(v) => {
                    proof {
                        let args = v.deep_view();
                        assert(args.len() == v@.len());
                        if v@.len() > 0 {
                            assert(args[0] == v@[0]@);
                            assert(args.last() == v@[v@.len() - 1]@);
                        }
                    }
                    if v.len() == 0 {
                        return State::Down;
                    }
                    if !(ends_with(v[0].as_str(), "/firefox") && same_text(
                        v[v.len() - 1].as_str(),
                        name,
                    )) {
                        return State::Down;
                    }
                    match get_uptime(p) {
                        Some(uptime) => {
                            if uptime < WARMUP_TIME {
                                State::Warming
                            } else {
                                match p.stat_state {
                                    Some(letter) => {
                                        if is_stopped(letter) {
                                            State::Suspended
                                        } else {
                                            State::Warmed
                                        }
                                    },
                                    None => State::Down,
                                }
                            }
                        },
                        None => State::Down,
                    }
                },
                None => State::Down,
            }
        },
        None => State::Down,
    }
}

/// A process that warms up is never seen warming again once it has been seen
/// past the warm-up.
///
/// For two readings of the browser of profile `name`, the second no earlier
/// in uptime than the first: below [`WARMUP_TIME`] the state is `Warming`;
/// from it on the state is never `Warming`, and it is `Warmed` or `Suspended`
/// wherever the status could be read. So a later `Warming` implies an
/// earlier one.
pub proof fn lemma_warm_up_is_monotonic(
    earlier: ProcessFactsView,
    later: ProcessFactsView,
    name: Seq<char>,
)
    requires
        earlier.alive && earlier.cmdline is Some && is_instance(earlier.cmdline->0, name),
        later.alive && later.cmdline is Some && is_instance(later.cmdline->0, name),
        uptime_of(earlier) is Some,
        uptime_of(later) is Some,
        uptime_of(earlier)->0 <= uptime_of(later)->0,
    ensures
        uptime_of(later)->0 < WARMUP_TIME ==> state_of(Some(later), name) == State::Warming,
        uptime_of(later)->0 >= WARMUP_TIME ==> state_of(Some(later), name) != State::Warming,
        uptime_of(later)->0 >= WARMUP_TIME && later.stat_state is Some ==> state_of(
            Some(later),
            name,
        ) == State::Warmed || state_of(Some(later), name) == State::Suspended,
        state_of(Some(later), name) == State::Warming ==> state_of(Some(earlier), name)
            == State::Warming,
{
}

/// Where the text behind the last `+` of `s` begins: just after that `+`, or
/// at 0 where `s` holds none.
pub open spec fn suffix_start(s: Seq<char>) -> int
    decreases s.len(),
{
    if s.len() == 0 {
        0
    } else if s.last() == '+' {
        s.len() as int
    } else {
        suffix_start(s.drop_last())
    }
}

/// Whether `c` is one of the digits `0` to `9`.
pub open spec fn is_digit(c: char) -> bool {
    48 <= c as u32 <= 57
}

/// The number that a string of digits writes in base ten.
pub open spec fn decimal(s: Seq<char>) -> nat
    decreases s.len(),
{
    if s.len() == 0 {
        0
    } else {
        decimal(s.drop_last()) * 10 + (s.last() as u32 - 48) as nat
    }
}

/// The process id that `s` writes: `s` is made of one or more digits and
/// names a number from 1 to `i32::MAX`.
pub open spec fn pid_of_text(s: Seq<char>) -> Option<i32> {
    if s.len() > 0 && (forall|i: int| 0 <= i < s.len() ==> is_digit(#[trigger] s[i])) && 0
        < decimal(s) <= i32::MAX {
        Some(decimal(s) as i32)
    } else {
        None
    }
}

/// The process id that the target of a lock link names: the text behind its
/// last `+` (all of it where there is none), read as a process id.
pub open spec fn pid_of_link(target: Seq<char>) -> Option<i32> {
    pid_of_text(target.skip(suffix_start(target)))
}

proof fn lemma_suffix_start(s: Seq<char>, i: int)
    requires
        0 <= i <= s.len(),
        forall|k: int| i <= k < s.len() ==> s[k] != '+',
        i == 0 || s[i - 1] == '+',
    ensures
        suffix_start(s) == i,
    decreases s.len(),
{
    if s.len() > i {
        lemma_suffix_start(s.drop_last(), i);
    }
}

proof fn lemma_decimal_grows(s: Seq<char>, i: int)
    requires
        0 <= i <= s.len(),
        forall|k: int| 0 <= k < s.len() ==> is_digit(#[trigger] s[k]),
    ensures
        decimal(s.take(i)) <= decimal(s),
    decreases s.len() - i,
{
    if i < s.len() {
        lemma_decimal_grows(s, i + 1);
        assert(s.take(i + 1).drop_last() =~= s.take(i));
    } else {
        assert(s.take(i) =~= s);
    }
}

/// Reads the process id out of the target of a profile's lock link; `None`
/// stands for a link that is missing.
pub fn get_pid(link: &Option<String>) -> (r: Option<i32>)
    ensures
        r == match link.deep_view() {
            Some(target) => pid_of_link(target),
            None => None,
        },
{
    let target = match link {
        Some(target) => target,
        None => {
            return None;
        },
    };
    let text = chars_of(target.as_str());
    let mut start: usize = text.len();
    while start > 0 && text[start - 1] != '+'
        invariant
            start <= text.len(),
            forall|k: int| start <= k < text.len() ==> text@[k] != '+',
        decreases start,
    {
        start = start - 1;
    }
    proof {
        lemma_suffix_start(text@, start as int);
    }
    let ghost digits = text@.skip(start as int);
    if start == text.len() {
        return None;
    }
    let mut value: u32 = 0;
    let mut i: usize = start;
    while i < text.len()
        invariant
            start <= i <= text.len(),
            *link == Some(*target),
            text@ == target@,
            start == suffix_start(text@),
            digits == text@.skip(start as int),
            forall|k: int| 0 <= k < i - start ==> is_digit(#[trigger] digits[k]),
            value == decimal(digits.take(i - start)),
            value <= i32::MAX,
        decreases text.len() - i,
    {
        let c = text[i];
        let code: u32 = c as u32;
        assert(digits[i - start] == c);
        if code < 48 || code > 57 {
            assert(!is_digit(digits[i - start]));
            return None;
        }
        let digit: u32 = code - 48;
        proof {
            assert(digits.take(i - start + 1).drop_last() =~= digits.take(i - start));
            assert(digits.take(i - start + 1).last() == c);
            assert(decimal(digits.take(i - start + 1)) == value * 10 + digit);
            if forall|k: int| 0 <= k < digits.len() ==> is_digit(#[trigger] digits[k]) {
                lemma_decimal_grows(digits, i - start + 1);
            }
        }
        if value > (0x7fff_ffff - digit) / 10 {
            return None;
        }
        value = value * 10 + digit;
        i = i + 1;
    }
    proof {
        assert(digits.take(i - start) =~= digits);
    }
    if value == 0 {
        None
    } else {
        Some(value as i32)
    }
}

} // verus!
