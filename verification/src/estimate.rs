//! Timing a command over several runs: the lengths of time measured, the
//! statistics kept of them, and the command line that asks for them.

use crate::decimal::{
    decimal_text,
    padded_left,
    parse_usize,
    push_decimal,
    push_padded,
    unsigned_value,
};
use crate::text::{
    chars_of,
    is_word,
    joined,
    owned,
    push_joined,
    push_str,
    string_of,
    strings,
    tail_of,
};
use std::collections::VecDeque;
use vstd::prelude::*;

verus! {

/// Nanoseconds in one second.
pub const NANOS_PER_SEC: u32 = 1000000000;

/// A length of time: whole seconds and the nanoseconds beyond them.
#[derive(Debug, Clone, Copy, PartialEq, Eq, Structural)]
pub struct Elapsed {
    pub secs: u64,
    pub nanos: u32,
}

/// The longest time an `Elapsed` can hold, in nanoseconds.
pub open spec fn longest() -> int {
    u64::MAX * 1000000000 + 999999999
}

impl Elapsed {
    /// The nanoseconds stay below one second.
    pub open spec fn wf(self) -> bool {
        self.nanos < 1000000000
    }

    /// The whole length in nanoseconds.
    pub open spec fn total(self) -> int {
        self.secs * 1000000000 + self.nanos
    }

    /// No time at all.
    pub fn zero() -> (r: Self)
        ensures
            r == (Elapsed { secs: 0, nanos: 0 }),
    {
        Elapsed { secs: 0, nanos: 0 }
    }

    /// A length of `secs` seconds and `nanos` nanoseconds.
    pub fn new(secs: u64, nanos: u32) -> (r: Self)
        requires
            nanos < 1000000000,
        ensures
            r == (Elapsed { secs, nanos }),
    {
        Elapsed { secs, nanos }
    }

    /// Whether this length is shorter than `other`.
    pub fn shorter_than(&self, other: &Elapsed) -> (r: bool)
        requires
            self.wf(),
            other.wf(),
        ensures
            r == (self.total() < other.total()),
    {
        self.secs < other.secs || (self.secs == other.secs && self.nanos < other.nanos)
    }

    /// The sum of two lengths, or `None` where it is longer than an
    /// `Elapsed` can hold.
    pub fn checked_add(&self, other: &Elapsed) -> (r: Option<Elapsed>)
        requires
            self.wf(),
            other.wf(),
        ensures
            self.total() + other.total() <= longest() ==> r is Some && r->0.wf() && r->0.total()
                == self.total() + other.total(),
            self.total() + other.total() > longest() ==> r is None,
    {
        let mut nanos: u32 = self.nanos + other.nanos;
        let mut carry: u64 = 0;
        if nanos >= NANOS_PER_SEC {
            nanos = nanos - NANOS_PER_SEC;
            carry = 1;
        }
        let secs: u64 = match self.secs.checked_add(other.secs) {
            Some(s) => s,
            None => {
                return None;
            },
        };
        match secs.checked_add(carry) {
            Some(s) => Some(Elapsed { secs: s, nanos }),
            None => None,
        }
    }

    /// The sum of two lengths.
    pub fn plus(&self, other: &Elapsed) -> (r: Elapsed)
        requires
            self.wf(),
            other.wf(),
            self.total() + other.total() <= longest(),
        ensures
            r.wf(),
            r.total() == self.total() + other.total(),
    {
        let nanos: u32 = self.nanos + other.nanos;
        if nanos >= NANOS_PER_SEC {
            Elapsed { secs: self.secs + other.secs + 1, nanos: nanos - NANOS_PER_SEC }
        } else {
            Elapsed { secs: self.secs + other.secs, nanos }
        }
    }

    /// This length divided by `count`, rounded down to a nanosecond.
    pub fn divided(&self, count: u32) -> (r: Elapsed)
        requires
            self.wf(),
            count > 0,
        ensures
            r.wf(),
            r.total() == self.total() / (count as int),
    {
        let total: u128 = self.secs as u128 * 1000000000 + self.nanos as u128;
        let share: u128 = total / count as u128;
        assert(share <= total) by (nonlinear_arith)
            requires
                share == total / (count as u128),
                count > 0,
        ;
        let secs: u128 = share / 1000000000;
        let nanos: u128 = share % 1000000000;
        Elapsed { secs: secs as u64, nanos: nanos as u32 }
    }
}

/// Two lengths of time with the same number of nanoseconds are the same.
pub proof fn lemma_total_injective(a: Elapsed, b: Elapsed)
    requires
        a.wf(),
        b.wf(),
        a.total() == b.total(),
    ensures
        a == b,
{
}

/// The sum of the lengths in `times`, in nanoseconds.
pub open spec fn sum_of(times: Seq<Elapsed>) -> int
    decreases times.len(),
{
    if times.len() == 0 {
        0
    } else {
        sum_of(times.drop_last()) + times.last().total()
    }
}

/// The shortest of the lengths in `times`, in nanoseconds; 0 where there is
/// none.
pub open spec fn least_of(times: Seq<Elapsed>) -> int
    decreases times.len(),
{
    if times.len() == 0 {
        0
    } else if times.len() == 1 {
        times.last().total()
    } else if times.last().total() < least_of(times.drop_last()) {
        times.last().total()
    } else {
        least_of(times.drop_last())
    }
}

/// The longest of the lengths in `times`, in nanoseconds; 0 where there is
/// none.
pub open spec fn greatest_of(times: Seq<Elapsed>) -> int
    decreases times.len(),
{
    if times.len() == 0 {
        0
    } else if times.len() == 1 {
        times.last().total()
    } else if times.last().total() > greatest_of(times.drop_last()) {
        times.last().total()
    } else {
        greatest_of(times.drop_last())
    }
}

/// The shortest length is no longer than any in `times`, and is one of
/// them.
pub proof fn lemma_least_of(times: Seq<Elapsed>)
    requires
        times.len() > 0,
    ensures
        forall|i: int| 0 <= i < times.len() ==> least_of(times) <= (#[trigger] times[i]).total(),
        exists|i: int| 0 <= i < times.len() && least_of(times) == (#[trigger] times[i]).total(),
    decreases times.len(),
{
    if times.len() == 1 {
        assert(least_of(times) == times[0].total());
    } else {
        let front = times.drop_last();
        lemma_least_of(front);
        let w = choose|i: int|
            0 <= i < front.len() && least_of(front) == (#[trigger] front[i]).total();
        assert(front[w] == times[w]);
        assert forall|i: int| 0 <= i < times.len() implies least_of(times) <= (
            #[trigger] times[i]
        ).total() by {
            if i < front.len() {
                assert(front[i] == times[i]);
            }
        }
        if times.last().total() < least_of(front) {
            assert(least_of(times) == times[times.len() - 1].total());
        } else {
            assert(least_of(times) == times[w].total());
        }
    }
}

/// The longest length is no shorter than any in `times`, and is one of
/// them.
pub proof fn lemma_greatest_of(times: Seq<Elapsed>)
    requires
        times.len() > 0,
    ensures
        forall|i: int| 0 <= i < times.len() ==> greatest_of(times) >= (#[trigger] times[i]).total(),
        exists|i: int| 0 <= i < times.len() && greatest_of(times) == (#[trigger] times[i]).total(),
    decreases times.len(),
{
    if times.len() == 1 {
        assert(greatest_of(times) == times[0].total());
    } else {
        let front = times.drop_last();
        lemma_greatest_of(front);
        let w = choose|i: int|
            0 <= i < front.len() && greatest_of(front) == (#[trigger] front[i]).total();
        assert(front[w] == times[w]);
        assert forall|i: int| 0 <= i < times.len() implies greatest_of(times) >= (
            #[trigger] times[i]
        ).total() by {
            if i < front.len() {
                assert(front[i] == times[i]);
            }
        }
        if times.last().total() > greatest_of(front) {
            assert(greatest_of(times) == times[times.len() - 1].total());
        } else {
            assert(greatest_of(times) == times[w].total());
        }
    }
}

/// The sum of the lengths lies between as many times the shortest and as
/// many times the longest as there are lengths.
pub proof fn lemma_sum_between(times: Seq<Elapsed>)
    ensures
        times.len() * least_of(times) <= sum_of(times) <= times.len() * greatest_of(times),
    decreases times.len(),
{
    if times.len() == 0 {
    } else if times.len() == 1 {
        assert(sum_of(times.drop_last()) == 0);
    } else {
        let front = times.drop_last();
        let n = front.len() as int;
        lemma_sum_between(front);
        assert((n + 1) * least_of(times) <= n * least_of(front) + times.last().total())
            by (nonlinear_arith)
            requires
                n >= 0,
                least_of(times) <= least_of(front),
                least_of(times) <= times.last().total(),
        ;
        assert((n + 1) * greatest_of(times) >= n * greatest_of(front) + times.last().total())
            by (nonlinear_arith)
            requires
                n >= 0,
                greatest_of(times) >= greatest_of(front),
                greatest_of(times) >= times.last().total(),
        ;
    }
}

/// The average of the lengths, rounded down, lies between the shortest and
/// the longest of them.
pub proof fn lemma_average_between(times: Seq<Elapsed>)
    requires
        times.len() > 0,
    ensures
        least_of(times) <= sum_of(times) / (times.len() as int) <= greatest_of(times),
{
    lemma_sum_between(times);
    let n = times.len() as int;
    let sum = sum_of(times);
    let low = least_of(times);
    let high = greatest_of(times);
    assert(low <= sum / n <= high) by (nonlinear_arith)
        requires
            n > 0,
            n * low <= sum <= n * high,
    ;
}

/// What is kept of the runs measured so far.
#[derive(Debug)]
pub struct ExecutionStats {
    pub times: VecDeque<Elapsed>,
    pub min: Elapsed,
    pub max: Elapsed,
    pub avg: Elapsed,
    pub total_time: Elapsed,
    pub success_count: usize,
    pub fail_count: usize,
}

impl ExecutionStats {
    /// The statistics agree with the times they were made of: the total is
    /// their sum, the minimum, maximum and average are theirs (all zero where
    /// there are none), and every run counts as a success or a failure.
    pub open spec fn wf(&self) -> bool {
        &&& forall|i: int| 0 <= i < self.times@.len() ==> (#[trigger] self.times@[i]).wf()
        &&& self.min.wf() && self.max.wf() && self.avg.wf() && self.total_time.wf()
        &&& self.total_time.total() == sum_of(self.times@)
        &&& self.min.total() == least_of(self.times@)
        &&& self.max.total() == greatest_of(self.times@)
        &&& self.avg.total() == (if self.times@.len() == 0 {
            0
        } else {
            sum_of(self.times@) / (self.times@.len() as int)
        })
        &&& self.success_count + self.fail_count == self.times@.len()
    }

    /// Statistics of no runs.
    pub fn new() -> (r: Self)
        ensures
            r.wf(),
            r.times@ == Seq::<Elapsed>::empty(),
            r.success_count == 0,
            r.fail_count == 0,
    {
        ExecutionStats {
            times: VecDeque::new(),
            min: Elapsed::zero(),
            max: Elapsed::zero(),
            avg: Elapsed::zero(),
            total_time: Elapsed::zero(),
            success_count: 0,
            fail_count: 0,
        }
    }

    /// Whether one more run of length `duration` can be taken in: the count
    /// of runs stays within 32 bits and the total within what an `Elapsed`
    /// holds.
    pub open spec fn has_room(&self, duration: Elapsed) -> bool {
        self.times@.len() < u32::MAX && self.total_time.total() + duration.total() <= longest()
    }

    /// Whether one more run of length `duration` can be taken in.
    pub fn can_add(&self, duration: Elapsed) -> (r: bool)
        requires
            self.wf(),
            duration.wf(),
        ensures
            r == self.has_room(duration),
    {
        self.times.len() < 4294967295 && self.total_time.checked_add(&duration).is_some()
    }

    /// Takes in one more run, of length `duration`, that succeeded or not.
    pub fn add_execution(&mut self, duration: Elapsed, success: bool)
        requires
            old(self).wf(),
            duration.wf(),
            old(self).has_room(duration),
        ensures
            final(self).wf(),
            final(self).times@ == old(self).times@.push(duration),
            final(self).success_count == old(self).success_count + (if success {
                1int
            } else {
                0
            }),
            final(self).fail_count == old(self).fail_count + (if success {
                0int
            } else {
                1
            }),
    {
        let ghost before = self.times@;
        self.times.push_back(duration);
        proof {
            assert(self.times@.drop_last() == before);
        }
        self.total_time = self.total_time.plus(&duration);

        if success {
            self.success_count += 1;
        } else {
            self.fail_count += 1;
        }

        if self.times.len() == 1 || duration.shorter_than(&self.min) {
            self.min = duration;
        }
        if self.times.len() == 1 || self.max.shorter_than(&duration) {
            self.max = duration;
        }

        self.avg = self.total_time.divided(self.times.len() as u32);
    }
}

/// How a length of time is to be shown.
#[derive(Debug, Clone, PartialEq, Eq)]
pub enum DurationText {
    /// The text itself.
    Plain(String),
    /// The number of seconds `secs + nanos / 1000000000`, to be written with
    /// three digits after the point and the letter `s`.
    Seconds { secs: u64, nanos: u32 },
}

/// A `DurationText` with its text taken as a sequence of characters.
pub enum DurationShown {
    Plain(Seq<char>),
    Seconds { secs: int, nanos: int },
}

impl View for DurationText {
    type V = DurationShown;

    open spec fn view(&self) -> DurationShown {
        match self {
            DurationText::Plain(text) => DurationShown::Plain(text@),
            DurationText::Seconds { secs, nanos } => DurationShown::Seconds {
                secs: *secs as int,
                nanos: *nanos as int,
            },
        }
    }
}

/// How `duration` is shown: in seconds where it lasts a second or more, else
/// in whole milliseconds, rounded down, with `ms` after them.
pub open spec fn shown_duration(duration: Elapsed) -> DurationShown {
    if duration.secs > 0 {
        DurationShown::Seconds { secs: duration.secs as int, nanos: duration.nanos as int }
    } else {
        DurationShown::Plain(decimal_text((duration.nanos / 1000000) as nat) + "ms"@)
    }
}

/// Decides how `duration` is shown, and writes the milliseconds.
pub fn format_duration(duration: Elapsed) -> (r: DurationText)
    ensures
        r@ == shown_duration(duration),
{
    if duration.secs > 0 {
        DurationText::Seconds { secs: duration.secs, nanos: duration.nanos }
    } else {
        let mut out: Vec<char> = Vec::new();
        push_decimal(&mut out, (duration.nanos / 1000000) as u64);
        push_str(&mut out, "ms");
        DurationText::Plain(string_of(out.as_slice()))
    }
}

/// Whether run number `index`, counted from 0, is measured: the first
/// `warmup` runs are not.
pub fn is_measured(index: usize, warmup: usize) -> (r: bool)
    ensures
        r == (index >= warmup),
{
    index >= warmup
}

/// The number of runs in all: the warmup runs and the measured ones, or
/// `None` where the sum does not fit a machine word.
pub fn total_runs(warmup: usize, iterations: usize) -> (r: Option<usize>)
    ensures
        warmup + iterations <= usize::MAX ==> r == Some((warmup + iterations) as usize),
        warmup + iterations > usize::MAX ==> r is None,
{
    warmup.checked_add(iterations)
}

/// The line that shows that run `current` of `total` is under way: a
/// carriage return, the share done in percent, rounded down and set in three
/// columns, and both numbers.
pub open spec fn progress_text(current: nat, total: nat) -> Seq<char> {
    "\rProgress: ["@ + padded_left(decimal_text(((current * 100) / total) as nat), 3, ' ')
        + "%] "@ + decimal_text(current) + "/"@ + decimal_text(total) + " "@
}

/// The line that shows that run `current` of `total` is under way.
pub fn progress_line(current: usize, total: usize) -> (r: String)
    requires
        total > 0,
        current * 100 <= usize::MAX,
    ensures
        r@ == progress_text(current as nat, total as nat),
{
    let mut out: Vec<char> = Vec::new();
    push_str(&mut out, "\rProgress: [");
    push_padded(&mut out, ((current * 100) / total) as u64, 3, ' ');
    push_str(&mut out, "%] ");
    push_decimal(&mut out, current as u64);
    push_str(&mut out, "/");
    push_decimal(&mut out, total as u64);
    push_str(&mut out, " ");
    string_of(out.as_slice())
}

/// What the command line asks for.
#[derive(Debug, Clone, PartialEq, Eq)]
pub struct Config {
    pub iterations: usize,
    pub warmup: usize,
    pub quiet: bool,
    pub simple: bool,
    pub command: String,
    pub args: Vec<String>,
}

/// A `Config` with its texts taken as sequences of characters.
pub struct ConfigView {
    pub iterations: int,
    pub warmup: int,
    pub quiet: bool,
    pub simple: bool,
    pub command: Seq<char>,
    pub args: Seq<Seq<char>>,
}

impl View for Config {
    type V = ConfigView;

    open spec fn view(&self) -> ConfigView {
        ConfigView {
            iterations: self.iterations as int,
            warmup: self.warmup as int,
            quiet: self.quiet,
            simple: self.simple,
            command: self.command@,
            args: strings(self.args@),
        }
    }
}

/// What a command line comes to: a request for the help text, or a
/// configuration to run with.
#[derive(Debug, Clone, PartialEq, Eq)]
pub enum Invocation {
    Help,
    Run(Config),
}

/// An `Invocation` with its texts taken as sequences of characters.
pub enum InvocationView {
    Help,
    Run(ConfigView),
}

impl View for Invocation {
    type V = InvocationView;

    open spec fn view(&self) -> InvocationView {
        match self {
            Invocation::Help => InvocationView::Help,
            Invocation::Run(config) => InvocationView::Run(config@),
        }
    }
}

/// The configuration before any argument is read: three measured runs after
/// one warmup run.
pub open spec fn default_config() -> ConfigView {
    ConfigView {
        iterations: 3,
        warmup: 1,
        quiet: false,
        simple: false,
        command: Seq::empty(),
        args: Seq::empty(),
    }
}

/// What the arguments from position `at` on come to, with `sofar` read of
/// those before. Options are read up to the first argument that is none: it
/// is the command, and all that follows it are the command's own arguments.
pub open spec fn parsed_from(args: Seq<Seq<char>>, at: int, sofar: ConfigView) -> Result<
    InvocationView,
    Seq<char>,
>
    decreases args.len() - at,
{
    if at < 0 || at >= args.len() {
        if sofar.command.len() == 0 {
            Err("No command specified"@)
        } else {
            Ok(InvocationView::Run(sofar))
        }
    } else {
        let arg = args[at];
        if arg == "-h"@ || arg == "--help"@ {
            Ok(InvocationView::Help)
        } else if arg == "-n"@ || arg == "--iterations"@ {
            if at + 1 >= args.len() {
                Err("Missing value for iterations"@)
            } else {
                match unsigned_value(args[at + 1], usize::MAX as int) {
                    None => Err("Invalid iterations value"@),
                    Some(n) => if n < 1 {
                        Err("Iterations must be at least 1"@)
                    } else {
                        parsed_from(args, at + 2, ConfigView { iterations: n, ..sofar })
                    },
                }
            }
        } else if arg == "-w"@ || arg == "--warmup"@ {
            if at + 1 >= args.len() {
                Err("Missing value for warmup"@)
            } else {
                match unsigned_value(args[at + 1], usize::MAX as int) {
                    None => Err("Invalid warmup value"@),
                    Some(n) => parsed_from(args, at + 2, ConfigView { warmup: n, ..sofar }),
                }
            }
        } else if arg == "-q"@ || arg == "--quiet"@ {
            parsed_from(args, at + 1, ConfigView { quiet: true, ..sofar })
        } else if arg == "-s"@ || arg == "--simple"@ {
            parsed_from(args, at + 1, ConfigView { simple: true, ..sofar })
        } else if arg.len() == 0 {
            Err("No command specified"@)
        } else {
            Ok(InvocationView::Run(ConfigView { command: arg, args: args.skip(at + 1), ..sofar }))
        }
    }
}

/// What a command line comes to. The first argument is the program's own
/// name and is not read.
pub open spec fn parsed_args(args: Seq<Seq<char>>) -> Result<InvocationView, Seq<char>> {
    if args.len() < 2 {
        Err("No command specified"@)
    } else {
        parsed_from(args, 1, default_config())
    }
}

/// A result with its texts taken as sequences of characters.
pub open spec fn parse_outcome(r: Result<Invocation, String>) -> Result<InvocationView, Seq<char>> {
    match r {
        Ok(i) => Ok(i@),
        Err(e) => Err(e@),
    }
}

/// Reads the command line.
pub fn parse_args(args: &Vec<String>) -> (r: Result<Invocation, String>)
    ensures
        parse_outcome(r) == parsed_args(strings(args@)),
{
    if args.len() < 2 {
        return Err(owned("No command specified"));
    }
    let mut config = Config {
        iterations: 3,
        warmup: 1,
        quiet: false,
        simple: false,
        command: String::new(),
        args: Vec::new(),
    };
    assert(config@.args =~= Seq::<Seq<char>>::empty());
    assert(config@ == default_config());
    let ghost all = strings(args@);
    let mut i: usize = 1;
    while i < args.len()
        invariant
            1 <= i <= args.len(),
            all == strings(args@),
            config@.command.len() == 0,
            parsed_args(all) == parsed_from(all, i as int, config@),
        decreases args.len() - i,
    {
        let arg = chars_of(args[i].as_str());
        assert(arg@ == all[i as int]);
        if is_word(arg.as_slice(), "-h") || is_word(arg.as_slice(), "--help") {
            return Ok(Invocation::Help);
        } else if is_word(arg.as_slice(), "-n") || is_word(arg.as_slice(), "--iterations") {
            i += 1;
            if i >= args.len() {
                return Err(owned("Missing value for iterations"));
            }
            let value = chars_of(args[i].as_str());
            assert(value@ == all[i as int]);
            config.iterations = match parse_usize(value.as_slice()) {
                Some(n) => n,
                None => {
                    return Err(owned("Invalid iterations value"));
                },
            };
            if config.iterations < 1 {
                return Err(owned("Iterations must be at least 1"));
            }
        } else if is_word(arg.as_slice(), "-w") || is_word(arg.as_slice(), "--warmup") {
            i += 1;
            if i >= args.len() {
                return Err(owned("Missing value for warmup"));
            }
            let value = chars_of(args[i].as_str());
            assert(value@ == all[i as int]);
            config.warmup = match parse_usize(value.as_slice()) {
                Some(n) => n,
                None => {
                    return Err(owned("Invalid warmup value"));
                },
            };
        } else if is_word(arg.as_slice(), "-q") || is_word(arg.as_slice(), "--quiet") {
            config.quiet = true;
        } else if is_word(arg.as_slice(), "-s") || is_word(arg.as_slice(), "--simple") {
            config.simple = true;
        } else {
            if arg.len() == 0 {
                return Err(owned("No command specified"));
            }
            config.command = args[i].clone();
            config.args = tail_of(args, i + 1);
            return Ok(Invocation::Run(config));
        }
        i += 1;
    }
    Err(owned("No command specified"))
}

/// The summary of the runs on one line: the four timings, as given, and the
/// counts of runs that succeeded and failed.
pub open spec fn brief_text(
    stats: &ExecutionStats,
    min: Seq<char>,
    max: Seq<char>,
    avg: Seq<char>,
    total: Seq<char>,
) -> Seq<char> {
    "min="@ + min + " max="@ + max + " avg="@ + avg + " total="@ + total + " success="@
        + decimal_text(stats.success_count as nat) + " fail="@ + decimal_text(
        stats.fail_count as nat,
    ) + "\n"@
}

/// The summary of the runs in full: the command with its arguments, the
/// counts of runs, and the four timings, as given.
pub open spec fn full_text(
    stats: &ExecutionStats,
    config: ConfigView,
    min: Seq<char>,
    max: Seq<char>,
    avg: Seq<char>,
    total: Seq<char>,
) -> Seq<char> {
    "\n=== Execution Summary ===\nCommand: "@ + config.command + " "@ + joined(config.args, " "@)
        + "\nIterations: "@ + decimal_text(stats.times@.len()) + "\nSuccessful: "@ + decimal_text(
        stats.success_count as nat,
    ) + "\nFailed: "@ + decimal_text(stats.fail_count as nat) + "\n\nTimings:\n  Minimum: "@ + min
        + "\n  Maximum: "@ + max + "\n  Average: "@ + avg + "\n  Total:   "@ + total + "\n"@
}

/// The summary of the runs, on one line where the configuration asks for
/// the simple form, else in full. The four timings are given as they are to
/// be shown.
pub fn results_text(
    stats: &ExecutionStats,
    config: &Config,
    min: &str,
    max: &str,
    avg: &str,
    total: &str,
) -> (r: String)
    ensures
        r@ == (if config.simple {
            brief_text(stats, min@, max@, avg@, total@)
        } else {
            full_text(stats, config@, min@, max@, avg@, total@)
        }),
{
    let mut out: Vec<char> = Vec::new();
    if config.simple {
        push_str(&mut out, "min=");
        push_str(&mut out, min);
        push_str(&mut out, " max=");
        push_str(&mut out, max);
        push_str(&mut out, " avg=");
        push_str(&mut out, avg);
        push_str(&mut out, " total=");
        push_str(&mut out, total);
        push_str(&mut out, " success=");
        push_decimal(&mut out, stats.success_count as u64);
        push_str(&mut out, " fail=");
        push_decimal(&mut out, stats.fail_count as u64);
        push_str(&mut out, "\n");
    } else {
        push_str(&mut out, "\n=== Execution Summary ===\nCommand: ");
        push_str(&mut out, config.command.as_str());
        push_str(&mut out, " ");
        push_joined(&mut out, &config.args, " ");
        push_str(&mut out, "\nIterations: ");
        push_decimal(&mut out, stats.times.len() as u64);
        push_str(&mut out, "\nSuccessful: ");
        push_decimal(&mut out, stats.success_count as u64);
        push_str(&mut out, "\nFailed: ");
        push_decimal(&mut out, stats.fail_count as u64);
        push_str(&mut out, "\n\nTimings:\n  Minimum: ");
        push_str(&mut out, min);
        push_str(&mut out, "\n  Maximum: ");
        push_str(&mut out, max);
        push_str(&mut out, "\n  Average: ");
        push_str(&mut out, avg);
        push_str(&mut out, "\n  Total:   ");
        push_str(&mut out, total);
        push_str(&mut out, "\n");
    }
    string_of(out.as_slice())
}

} // verus!
