//! Running a program under limits: what is decided at each look at the running
//! process, and how the operating system's figures are read.
//!
//! The judged clock is CPU time, user and system together, so that a verdict
//! does not depend on how busy the machine is. A wall-clock limit remains as a
//! backstop for programs that block without burning CPU.

use vstd::prelude::*;
use vstd::string::*;

use crate::duration::{exceeds, longest_limit_is_never_exceeded, max_nanos, over, Duration};
use crate::number::{parse_unsigned, unsigned_value};
use crate::path::Platform;
use crate::text::{
    chars_of, join_from, joined, lines, lines_of, string_of, texts, trim, trimmed,
};

verus! {

/// How a program ended.
#[derive(Debug, Clone, Copy, PartialEq, Eq, Structural)]
pub enum ExitKind {
    Code(i32),
    /// Only Unix ends programs by signal.
    Signal(i32),
}

/// What to run and under which limits.
pub struct RunSpec {
    pub argv: Vec<Vec<u8>>,
    pub stdin_file: Option<Vec<u8>>,
    pub stdout_file: Option<Vec<u8>>,
    pub stderr_file: Option<Vec<u8>>,
    /// CPU time, user and system; the longest duration disables the check.
    pub cpu_limit: Duration,
    /// Wall-clock backstop, for programs that block without burning CPU.
    pub wall_limit: Duration,
    /// Bytes; `u64::MAX` disables the check.
    pub memory_limit: u64,
}

impl RunSpec {
    /// The limits of the run.
    pub fn limits(&self) -> (res: RunLimits)
        ensures
            res.cpu == self.cpu_limit,
            res.wall == self.wall_limit,
            res.memory == self.memory_limit,
    {
        RunLimits { cpu: self.cpu_limit, wall: self.wall_limit, memory: self.memory_limit }
    }
}

/// Measured outcome of one run.
#[derive(Debug, Clone, Copy)]
pub struct RunStats {
    /// Killed for exceeding a time limit of either kind.
    pub timed_out: bool,
    /// The kill came from the wall-clock backstop.
    pub hung: bool,
    pub memory_exceeded: bool,
    /// CPU time, user and system.
    pub cpu_time: Duration,
    pub wall_time: Duration,
    /// Peak resident memory in bytes.
    pub peak_memory: u64,
    pub exit: ExitKind,
}

/// The limits of a run as the decisions read them.
#[derive(Debug, Clone, Copy)]
pub struct RunLimits {
    pub cpu: Duration,
    pub wall: Duration,
    /// Bytes.
    pub memory: u64,
}

/// What one look at a running process shows.
#[derive(Debug, Clone, Copy)]
pub struct Sample {
    /// CPU time so far, where the platform can tell.
    pub cpu: Option<Duration>,
    /// Time since the start.
    pub elapsed: Duration,
    /// Peak resident memory so far in bytes, where the platform can tell.
    pub resident: Option<u64>,
}

/// What is known of a running process.
#[derive(Debug, Clone, Copy, PartialEq, Eq, Structural)]
pub struct Monitor {
    pub timed_out: bool,
    pub hung: bool,
    pub memory_exceeded: bool,
    /// The process has been told to die.
    pub killed: bool,
    /// Peak memory in bytes.
    pub peak: u64,
}

/// Nothing known yet.
pub open spec fn fresh_monitor() -> Monitor {
    Monitor { timed_out: false, hung: false, memory_exceeded: false, killed: false, peak: 0 }
}

pub open spec fn larger(a: u64, b: u64) -> u64 {
    if a >= b {
        a
    } else {
        b
    }
}

/// What is known of a process after another look at it. The limits are tried
/// in the order CPU time, wall clock, memory; a process that was told to die
/// is not judged again.
pub open spec fn monitored(m: Monitor, limits: RunLimits, s: Sample) -> Monitor {
    if m.killed {
        m
    } else if s.cpu is Some && exceeds(s.cpu->0@, limits.cpu@) {
        Monitor { timed_out: true, killed: true, ..m }
    } else if s.elapsed@ >= limits.wall@ {
        Monitor { timed_out: true, hung: true, killed: true, ..m }
    } else {
        match s.resident {
            Some(bytes) => Monitor {
                memory_exceeded: bytes > limits.memory,
                killed: bytes > limits.memory,
                peak: larger(m.peak, bytes),
                ..m
            },
            None => m,
        }
    }
}

/// What the monitor of a process keeps true.
pub open spec fn monitor_ok(m: Monitor) -> bool {
    &&& m.hung ==> m.timed_out
    &&& m.killed <==> m.timed_out || m.memory_exceeded
}

impl Monitor {
    /// The monitor of a process that was just started.
    pub fn new() -> (res: Self)
        ensures
            res == fresh_monitor(),
    {
        Monitor { timed_out: false, hung: false, memory_exceeded: false, killed: false, peak: 0 }
    }

    /// Takes in one look at the process and says whether to kill it now.
    pub fn poll(&mut self, limits: &RunLimits, s: &Sample) -> (kill: bool)
        ensures
            *final(self) == monitored(*old(self), *limits, *s),
            kill == (final(self).killed && !old(self).killed),
    {
        if self.killed {
            return false;
        }
        let cpu_over = match s.cpu {
            Some(c) => over(c, limits.cpu),
            None => false,
        };
        if cpu_over {
            self.timed_out = true;
            self.killed = true;
        } else if s.elapsed.reaches(limits.wall) {
            self.timed_out = true;
            self.hung = true;
            self.killed = true;
        } else {
            match s.resident {
                Some(bytes) => {
                    if bytes > self.peak {
                        self.peak = bytes;
                    }
                    self.memory_exceeded = bytes > limits.memory;
                    self.killed = bytes > limits.memory;
                },
                None => {},
            }
        }
        self.killed
    }

    /// The outcome of a run whose process was reaped, with the final figures.
    /// A program can cross the CPU limit and exit between two looks, and some
    /// platforms show no CPU time before the end: the final figure decides too.
    pub fn finish(
        self,
        limits: &RunLimits,
        max_resident: u64,
        cpu: Duration,
        wall: Duration,
        exit: ExitKind,
    ) -> (res: RunStats)
        ensures
            res.timed_out == (self.timed_out || exceeds(cpu@, limits.cpu@)),
            res.hung == self.hung,
            res.memory_exceeded == self.memory_exceeded,
            res.cpu_time == cpu,
            res.wall_time == wall,
            res.peak_memory == larger(self.peak, max_resident),
            res.exit == exit,
    {
        let peak = if max_resident > self.peak {
            max_resident
        } else {
            self.peak
        };
        RunStats {
            timed_out: self.timed_out || over(cpu, limits.cpu),
            hung: self.hung,
            memory_exceeded: self.memory_exceeded,
            cpu_time: cpu,
            wall_time: wall,
            peak_memory: peak,
            exit,
        }
    }

    /// The outcome of a run inside a Windows job, whose peak memory is known
    /// at the end only and decides there.
    pub fn finish_job(
        self,
        limits: &RunLimits,
        job_peak: u64,
        cpu: Duration,
        wall: Duration,
        exit_code: u32,
    ) -> (res: RunStats)
        ensures
            res.timed_out == (self.timed_out || exceeds(cpu@, limits.cpu@)),
            res.hung == self.hung,
            res.memory_exceeded == (job_peak > limits.memory),
            res.cpu_time == cpu,
            res.wall_time == wall,
            res.peak_memory == job_peak,
            res.exit == ExitKind::Code(exit_code as i32),
    {
        RunStats {
            timed_out: self.timed_out || over(cpu, limits.cpu),
            hung: self.hung,
            memory_exceeded: job_peak > limits.memory,
            cpu_time: cpu,
            wall_time: wall,
            peak_memory: job_peak,
            exit: ExitKind::Code(exit_code as i32),
        }
    }
}

/// What is known of a process after a series of looks at it.
pub open spec fn watched(limits: RunLimits, samples: Seq<Sample>) -> Monitor
    decreases samples.len(),
{
    if samples.len() == 0 {
        fresh_monitor()
    } else {
        monitored(watched(limits, samples.drop_last()), limits, samples.last())
    }
}

/// However often a process is looked at, its monitor stays consistent: a hang
/// is a timeout, and a process is told to die exactly when a limit was crossed.
pub proof fn monitors_stay_consistent(limits: RunLimits, samples: Seq<Sample>)
    ensures
        monitor_ok(watched(limits, samples)),
    decreases samples.len(),
{
    if samples.len() > 0 {
        monitors_stay_consistent(limits, samples.drop_last());
    }
}

/// Once a process was told to die nothing more is decided about it, so that it
/// is killed at most once.
pub proof fn a_process_is_killed_once(limits: RunLimits, samples: Seq<Sample>, n: int)
    requires
        0 <= n <= samples.len(),
        watched(limits, samples.take(n)).killed,
    ensures
        watched(limits, samples) == watched(limits, samples.take(n)),
    decreases samples.len(),
{
    if n == samples.len() {
        assert(samples.take(n) =~= samples);
    } else {
        let shorter = samples.drop_last();
        assert(shorter.take(n) =~= samples.take(n));
        a_process_is_killed_once(limits, shorter, n);
    }
}

/// A process that never shows more than its limits is left alone.
pub proof fn a_process_within_limits_is_not_killed(limits: RunLimits, samples: Seq<Sample>)
    requires
        forall|i: int|
            0 <= i < samples.len() ==> {
                let s = #[trigger] samples[i];
                &&& s.cpu is Some ==> !exceeds(s.cpu->0@, limits.cpu@)
                &&& s.elapsed@ < limits.wall@
                &&& s.resident is Some ==> s.resident->0 <= limits.memory
            },
    ensures
        !watched(limits, samples).killed,
        !watched(limits, samples).timed_out,
        !watched(limits, samples).memory_exceeded,
    decreases samples.len(),
{
    if samples.len() > 0 {
        let shorter = samples.drop_last();
        assert forall|i: int| 0 <= i < shorter.len() implies {
            let s = #[trigger] shorter[i];
            &&& s.cpu is Some ==> !exceeds(s.cpu->0@, limits.cpu@)
            &&& s.elapsed@ < limits.wall@
            &&& s.resident is Some ==> s.resident->0 <= limits.memory
        } by {
            assert(shorter[i] == samples[i]);
        }
        a_process_within_limits_is_not_killed(limits, shorter);
        assert(samples.last() == samples[samples.len() - 1]);
    }
}

/// The largest limits disable their checks: of CPU time and memory nothing is
/// then ever held against a process.
pub proof fn the_largest_limits_disable_their_checks(limits: RunLimits, samples: Seq<Sample>)
    requires
        limits.cpu@ == max_nanos(),
        limits.memory == u64::MAX,
        forall|i: int|
            0 <= i < samples.len() && (#[trigger] samples[i]).cpu is Some ==> samples[i].cpu->0@
                <= max_nanos(),
    ensures
        !watched(limits, samples).memory_exceeded,
        watched(limits, samples).timed_out ==> watched(limits, samples).hung,
    decreases samples.len(),
{
    if samples.len() > 0 {
        let before = samples.drop_last();
        assert forall|i: int|
            0 <= i < before.len() && (#[trigger] before[i]).cpu is Some implies before[i].cpu->0@
            <= max_nanos() by {
            assert(before[i] == samples[i]);
        }
        the_largest_limits_disable_their_checks(limits, before);
        let s = samples[samples.len() - 1];
        assert(s == samples.last());
        if s.cpu is Some {
            longest_limit_is_never_exceeded(s.cpu->0@);
        }
    }
}

/// As long as the backstop is not reached, it does not matter how much time
/// passes by the clock on the wall: what is known of a process depends on its
/// CPU time and memory alone.
pub proof fn only_cpu_time_counts(limits: RunLimits, a: Seq<Sample>, b: Seq<Sample>)
    requires
        a.len() == b.len(),
        forall|i: int|
            0 <= i < a.len() ==> {
                &&& (#[trigger] a[i]).cpu == b[i].cpu
                &&& a[i].resident == b[i].resident
                &&& a[i].elapsed@ < limits.wall@
                &&& b[i].elapsed@ < limits.wall@
            },
    ensures
        watched(limits, a) == watched(limits, b),
        !watched(limits, a).hung,
    decreases a.len(),
{
    if a.len() > 0 {
        let x = a.drop_last();
        let y = b.drop_last();
        assert forall|i: int| 0 <= i < x.len() implies {
            &&& (#[trigger] x[i]).cpu == y[i].cpu
            &&& x[i].resident == y[i].resident
            &&& x[i].elapsed@ < limits.wall@
            &&& y[i].elapsed@ < limits.wall@
        } by {
            assert(x[i] == a[i] && y[i] == b[i]);
        }
        only_cpu_time_counts(limits, x, y);
        assert(a.last() == a[a.len() - 1]);
    }
}

/// A process that was killed as hung had reached its limit by the clock on the
/// wall.
pub proof fn hangs_reached_the_backstop(limits: RunLimits, samples: Seq<Sample>)
    requires
        watched(limits, samples).hung,
    ensures
        exists|i: int|
            0 <= i < samples.len() && (#[trigger] samples[i]).elapsed@ >= limits.wall@,
    decreases samples.len(),
{
    let before = samples.drop_last();
    if watched(limits, before).hung {
        hangs_reached_the_backstop(limits, before);
        let i = choose|i: int|
            0 <= i < before.len() && (#[trigger] before[i]).elapsed@ >= limits.wall@;
        assert(samples[i] == before[i]);
    } else {
        assert(samples[samples.len() - 1].elapsed@ >= limits.wall@);
    }
}

/// A process that was killed for its memory is known to have taken more than
/// its limit.
pub proof fn memory_kills_show_their_peak(limits: RunLimits, samples: Seq<Sample>)
    ensures
        watched(limits, samples).memory_exceeded ==> watched(limits, samples).peak > limits.memory,
    decreases samples.len(),
{
    if samples.len() > 0 {
        memory_kills_show_their_peak(limits, samples.drop_last());
    }
}

// ---------------------------------------------------------------------------
// Reading the operating system's figures
// ---------------------------------------------------------------------------

/// What a Unix wait status says: the low seven bits hold the signal that ended
/// the process, zero if it exited, in which case the next eight bits hold its
/// exit code. All seven bits set mean that it has not ended.
pub open spec fn exit_of_status(status: i32) -> ExitKind {
    if status & 0x7f == 0 {
        ExitKind::Code((status >> 8) & 0xff)
    } else if status & 0x7f != 0x7f {
        ExitKind::Signal(status & 0x7f)
    } else {
        ExitKind::Code(-1i32)
    }
}

/// Decodes a Unix wait status.
pub fn decode_status(status: i32) -> (res: ExitKind)
    ensures
        res == exit_of_status(status),
{
    if status & 0x7f == 0 {
        ExitKind::Code((status >> 8) & 0xff)
    } else if status & 0x7f != 0x7f {
        ExitKind::Signal(status & 0x7f)
    } else {
        ExitKind::Code(-1)
    }
}

/// A decoded status holds an exit code of one byte, a proper signal, or the
/// code that stands for neither.
pub proof fn decoded_statuses_are_in_range(status: i32)
    ensures
        match exit_of_status(status) {
            ExitKind::Code(c) => -1 <= c <= 255,
            ExitKind::Signal(s) => 1 <= s <= 126,
        },
{
    assert(0 <= (status >> 8) & 0xff <= 255) by (bit_vector);
    assert(0 <= status & 0x7f <= 0x7f) by (bit_vector);
}

/// Peak memory in bytes of what `rusage` reports, which counts kilobytes on
/// Linux and bytes elsewhere.
pub open spec fn resident_bytes(p: Platform, maxrss: int) -> nat {
    let amount = if maxrss > 0 {
        maxrss as nat
    } else {
        0
    };
    if p == Platform::Linux {
        amount * 1024
    } else {
        amount
    }
}

/// Peak memory in bytes of what `rusage` reports.
pub fn ru_maxrss_bytes(p: Platform, maxrss: i64) -> (res: u64)
    requires
        resident_bytes(p, maxrss as int) <= u64::MAX,
    ensures
        res == resident_bytes(p, maxrss as int),
{
    let amount: u64 = if maxrss > 0 {
        maxrss as u64
    } else {
        0
    };
    if p == Platform::Linux {
        amount * 1024
    } else {
        amount
    }
}

/// `x`, but no less than `lo` and no more than `hi`.
pub open spec fn clamped(x: int, lo: int, hi: int) -> int {
    if x < lo {
        lo
    } else if x > hi {
        hi
    } else {
        x
    }
}

/// A time given in seconds and a smaller unit, in nanoseconds. Neither part
/// counts below zero, and the smaller stays below a second.
pub open spec fn clock_nanos(sec: int, sub: int, unit: int) -> nat {
    (clamped(sec, 0, i64::MAX as int) * 1_000_000_000 + clamped(
        sub,
        0,
        1_000_000_000int / unit - 1,
    ) * unit) as nat
}

/// A span given in seconds and microseconds.
pub fn from_timeval(sec: i64, usec: i64) -> (res: Duration)
    ensures
        res@ == clock_nanos(sec as int, usec as int, 1000),
{
    let s: u64 = if sec < 0 {
        0
    } else {
        sec as u64
    };
    let u: u32 = if usec < 0 {
        0
    } else if usec > 999_999 {
        999_999
    } else {
        usec as u32
    };
    Duration::new(s, u * 1000)
}

/// Total CPU time, user and system, of a reaped process.
pub fn ru_cpu_time(user_sec: i64, user_usec: i64, sys_sec: i64, sys_usec: i64) -> (res: Duration)
    ensures
        res@ == clock_nanos(user_sec as int, user_usec as int, 1000) + clock_nanos(
            sys_sec as int,
            sys_usec as int,
            1000,
        ),
{
    from_timeval(user_sec, user_usec).plus(from_timeval(sys_sec, sys_usec))
}

/// A reading of a process' CPU clock, in seconds and nanoseconds.
pub fn cpu_time(sec: i64, nsec: i64) -> (res: Duration)
    ensures
        res@ == clock_nanos(sec as int, nsec as int, 1),
{
    let s: u64 = if sec < 0 {
        0
    } else {
        sec as u64
    };
    let n: u32 = if nsec < 0 {
        0
    } else if nsec > 999_999_999 {
        999_999_999
    } else {
        nsec as u32
    };
    Duration::new(s, n)
}

/// CPU time of a Windows process: kernel and user time, each in two halves of
/// a 64-bit count of 100 ns.
pub fn process_cpu_time(kernel_high: u32, kernel_low: u32, user_high: u32, user_low: u32) -> (res:
    Duration)
    ensures
        res@ == ((kernel_high + user_high) * 0x1_0000_0000 + kernel_low + user_low) * 100,
{
    let ticks: u128 = (kernel_high as u128 + user_high as u128) * 0x1_0000_0000 + kernel_low as u128
        + user_low as u128;
    let secs: u64 = (ticks / 10_000_000) as u64;
    let rest: u32 = (ticks % 10_000_000) as u32;
    Duration::new(secs, rest * 100)
}

/// Whether `s` starts with `prefix`.
pub open spec fn starts_with(s: Seq<char>, prefix: Seq<char>) -> bool {
    s.len() >= prefix.len() && s.take(prefix.len() as int) == prefix
}

/// `s` without any `kB` at its end.
pub open spec fn without_unit(s: Seq<char>) -> Seq<char>
    decreases s.len(),
{
    if s.len() >= 2 && s[s.len() - 2] == 'k' && s[s.len() - 1] == 'B' {
        without_unit(s.take(s.len() - 2))
    } else {
        s
    }
}

/// What follows `prefix` in the first line from `i` on that starts with it.
pub open spec fn field_from(v: Seq<Seq<char>>, prefix: Seq<char>, i: nat) -> Option<Seq<char>>
    decreases v.len() - i,
{
    if i >= v.len() {
        None
    } else if starts_with(v[i as int], prefix) {
        Some(v[i as int].skip(prefix.len() as int))
    } else {
        field_from(v, prefix, i + 1)
    }
}

/// A number of kilobytes in bytes. A figure too large to count in bytes is
/// none.
pub open spec fn bytes_of_field(field: Seq<char>) -> Option<nat> {
    match unsigned_value(trimmed(without_unit(field))) {
        None => None,
        Some(kb) => if kb * 1024 <= u64::MAX {
            Some(kb * 1024)
        } else {
            None
        },
    }
}

/// The peak resident memory in bytes that a `/proc/<pid>/status` text shows.
pub open spec fn peak_of_status(status: Seq<char>) -> Option<nat> {
    match field_from(lines_of(status), "VmHWM:"@, 0) {
        None => None,
        Some(field) => bytes_of_field(field),
    }
}

/// What follows `prefix` in `line`, if it starts with it.
fn strip_prefix(line: &str, prefix: &str) -> (res: Option<Vec<char>>)
    ensures
        starts_with(line@, prefix@) <==> res is Some,
        res is Some ==> res->0@ == line@.skip(prefix@.len() as int),
{
    let a = chars_of(line);
    let b = chars_of(prefix);
    if a.len() < b.len() {
        return None;
    }
    let mut i: usize = 0;
    while i < b.len()
        invariant
            i <= b@.len() <= a@.len(),
            a@ == line@,
            b@ == prefix@,
            forall|j: int| 0 <= j < i ==> a@[j] == b@[j],
        decreases b@.len() - i,
    {
        if a[i] != b[i] {
            assert(line@.take(prefix@.len() as int)[i as int] == a@[i as int]);
            return None;
        }
        i += 1;
    }
    assert(line@.take(prefix@.len() as int) =~= prefix@);
    let mut rest: Vec<char> = Vec::new();
    while i < a.len()
        invariant
            b@.len() <= i <= a@.len(),
            a@ == line@,
            b@ == prefix@,
            rest@ =~= a@.subrange(b@.len() as int, i as int),
        decreases a@.len() - i,
    {
        rest.push(a[i]);
        i += 1;
    }
    assert(rest@ =~= line@.skip(prefix@.len() as int));
    Some(rest)
}

/// A number of kilobytes in bytes.
fn kilobytes(field: &[char]) -> (res: Option<u64>)
    ensures
        bytes_of_field(field@) == (match res {
            Some(v) => Some(v as nat),
            None => None,
        }),
{
    let mut n: usize = field.len();
    assert(field@.take(n as int) =~= field@);
    while n >= 2 && field[n - 2] == 'k' && field[n - 1] == 'B'
        invariant
            n <= field@.len(),
            without_unit(field@) == without_unit(field@.take(n as int)),
        decreases n,
    {
        assert(field@.take(n as int).take(n - 2) =~= field@.take(n - 2));
        n -= 2;
    }
    assert(field@.subrange(0, n as int) =~= field@.take(n as int));
    let figure = trim(string_of(&field[0..n]).as_str());
    match parse_unsigned(figure.as_str()) {
        None => None,
        Some(kb) => kb.checked_mul(1024),
    }
}

/// The peak resident memory in bytes that a `/proc/<pid>/status` text shows.
#[verifier::spinoff_prover]
pub fn vm_hwm_bytes(status: &str) -> (res: Option<u64>)
    ensures
        peak_of_status(status@) == (match res {
            Some(v) => Some(v as nat),
            None => None,
        }),
{
    let all = lines(status);
    let ghost v = texts(all@);
    let mut i: usize = 0;
    while i < all.len()
        invariant
            i <= all@.len(),
            v == texts(all@),
            v == lines_of(status@),
            field_from(v, "VmHWM:"@, 0) == field_from(v, "VmHWM:"@, i as nat),
        decreases all@.len() - i,
    {
        assert(v[i as int] == all@[i as int]@);
        match strip_prefix(all[i].as_str(), "VmHWM:") {
            None => {},
            Some(field) => {
                return kilobytes(&field);
            },
        }
        i += 1;
    }
    None
}

/// An argument between double quotes, its own double quotes escaped.
pub open spec fn quoted_argument(a: Seq<char>) -> Seq<char> {
    seq!['"'] + escaped_quotes(a) + seq!['"']
}

/// `a` with a backslash in front of every double quote.
pub open spec fn escaped_quotes(a: Seq<char>) -> Seq<char>
    decreases a.len(),
{
    if a.len() == 0 {
        seq![]
    } else if a.last() == '"' {
        escaped_quotes(a.drop_last()) + seq!['\\', '"']
    } else {
        escaped_quotes(a.drop_last()).push(a.last())
    }
}

/// The command line that hands these arguments to a Windows program.
pub open spec fn command_line_of(args: Seq<Seq<char>>) -> Seq<char> {
    joined(args.map_values(|a: Seq<char>| quoted_argument(a)), " "@)
}

fn quote_argument(a: &str) -> (res: String)
    ensures
        res@ == quoted_argument(a@),
{
    let chars = chars_of(a);
    let mut res = String::new();
    res.push('"');
    let mut i: usize = 0;
    assert(chars@.take(0) =~= Seq::<char>::empty());
    assert(res@ =~= seq!['"'] + escaped_quotes(chars@.take(0)));
    while i < chars.len()
        invariant
            i <= chars@.len(),
            chars@ == a@,
            res@ =~= seq!['"'] + escaped_quotes(chars@.take(i as int)),
        decreases chars@.len() - i,
    {
        let ghost next = chars@.take(i + 1);
        assert(next.drop_last() =~= chars@.take(i as int));
        assert(next.last() == chars@[i as int]);
        if chars[i] == '"' {
            res.push('\\');
        }
        res.push(chars[i]);
        i += 1;
    }
    assert(chars@.take(i as int) =~= a@);
    res.push('"');
    assert(res@ =~= quoted_argument(a@));
    res
}

/// The command line that hands these arguments to a Windows program.
pub fn command_line(args: &Vec<String>) -> (res: String)
    ensures
        res@ == command_line_of(texts(args@)),
{
    let mut parts: Vec<String> = Vec::new();
    let ghost wanted = texts(args@).map_values(|a: Seq<char>| quoted_argument(a));
    let mut i: usize = 0;
    while i < args.len()
        invariant
            i <= args@.len(),
            wanted == texts(args@).map_values(|a: Seq<char>| quoted_argument(a)),
            texts(parts@) =~= wanted.take(i as int),
        decreases args@.len() - i,
    {
        let part = quote_argument(args[i].as_str());
        let ghost before = texts(parts@);
        parts.push(part);
        assert(texts(parts@) =~= before.push(part@));
        assert(wanted[i as int] == part@);
        i += 1;
    }
    assert(texts(parts@).skip(0) =~= wanted);
    join_from(&parts, 0, " ")
}

} // verus!
