//! What holds of every run of a program: when it is killed, what is made of the
//! operating system's figures, and under which limits it runs and is judged.

use vstd::prelude::*;
use vstd::string::*;
use vstd::utf8::*;

use crate::duration::{exceeds, over, Duration};
use crate::number::unsigned_value;
use crate::path::Platform;
use crate::runner::{
    command_line, command_line_of, cpu_time, decode_status, escaped_quotes, field_from,
    from_timeval, monitored, peak_of_status, process_cpu_time, quoted_argument, ru_cpu_time,
    ru_maxrss_bytes, starts_with, vm_hwm_bytes, watched, without_unit, ExitKind, Monitor, RunLimits,
    RunSpec, RunStats, Sample,
};
use crate::text::{is_white, lines_of, texts};
use crate::text_laws::{
    has_dense_ends, is_all_white, joining_is_piecewise, trimming_takes_away_the_blank_ends,
};

verus! {

// ---------------------------------------------------------------------------
// Time
// ---------------------------------------------------------------------------

/// Times are held against limits in whole milliseconds: what is beyond them does
/// not count on either side.
pub proof fn only_whole_milliseconds_count(
    spent: Duration,
    limit: Duration,
    a: nat,
    x: nat,
    b: nat,
    y: nat,
    res: bool,
)
    requires
        x < 1_000_000,
        y < 1_000_000,
        spent@ == a * 1_000_000 + x,
        limit@ == b * 1_000_000 + y,
        call_ensures(over, (spent, limit), res),
    ensures
        res <==> a > b,
        exceeds(spent@, limit@) <==> a > b,
{
    assert((a * 1_000_000 + x) / 1_000_000 == a);
    assert((b * 1_000_000 + y) / 1_000_000 == b);
}

// ---------------------------------------------------------------------------
// Killing
// ---------------------------------------------------------------------------

/// Whether a look at a process shows more CPU time than it may take, by at least
/// a whole millisecond.
pub open spec fn shows_cpu_crossed(limits: RunLimits, s: Sample) -> bool {
    s.cpu is Some && s.cpu->0@ / 1_000_000 > limits.cpu@ / 1_000_000
}

/// Whether a look at a process comes when it has had all the time it may have by
/// the clock on the wall.
pub open spec fn shows_wall_crossed(limits: RunLimits, s: Sample) -> bool {
    s.elapsed@ >= limits.wall@
}

/// Whether a look at a process shows more memory than it may take.
pub open spec fn shows_memory_crossed(limits: RunLimits, s: Sample) -> bool {
    s.resident is Some && s.resident->0 > limits.memory
}

/// Whether a look at a process shows any limit crossed.
pub open spec fn shows_a_limit_crossed(limits: RunLimits, s: Sample) -> bool {
    shows_cpu_crossed(limits, s) || shows_wall_crossed(limits, s) || shows_memory_crossed(limits, s)
}

/// Whatever is known of a process, a look that shows a limit crossed kills it.
pub proof fn a_crossed_limit_kills(m: Monitor, limits: RunLimits, s: Sample)
    requires
        shows_a_limit_crossed(limits, s),
    ensures
        monitored(m, limits, s).killed,
{
}

/// Of a process that is alive, a look tells everything: it is killed exactly when
/// a limit is crossed. CPU time and the clock on the wall make that a timeout,
/// the clock alone a hang, and memory counts where neither is crossed.
pub proof fn a_look_decides_by_the_limits_alone(m: Monitor, limits: RunLimits, s: Sample)
    requires
        !m.killed,
        !m.timed_out,
        !m.hung,
        !m.memory_exceeded,
    ensures
        ({
            let n = monitored(m, limits, s);
            let timed = shows_cpu_crossed(limits, s) || shows_wall_crossed(limits, s);
            &&& n.killed <==> shows_a_limit_crossed(limits, s)
            &&& n.timed_out <==> timed
            &&& n.hung <==> shows_wall_crossed(limits, s) && !shows_cpu_crossed(limits, s)
            &&& n.memory_exceeded <==> shows_memory_crossed(limits, s) && !timed
            &&& n.peak >= m.peak
            &&& timed ==> n.peak == m.peak
            &&& !timed && s.resident is Some ==> n.peak >= s.resident->0
            &&& n.peak == m.peak || (s.resident is Some && n.peak == s.resident->0)
        }),
{
}

/// A process that was told to die is not judged again.
pub proof fn the_dead_are_not_judged(m: Monitor, limits: RunLimits, s: Sample)
    requires
        m.killed,
    ensures
        monitored(m, limits, s) == m,
{
}

/// The first look that shows a limit crossed decides, whatever comes after it: what
/// is known of the process is what that look tells.
pub proof fn the_first_crossed_limit_decides(limits: RunLimits, samples: Seq<Sample>, i: int)
    requires
        0 <= i < samples.len(),
        shows_a_limit_crossed(limits, samples[i]),
        forall|j: int| 0 <= j < i ==> !shows_a_limit_crossed(limits, #[trigger] samples[j]),
    ensures
        ({
            let n = watched(limits, samples);
            let s = samples[i];
            let timed = shows_cpu_crossed(limits, s) || shows_wall_crossed(limits, s);
            &&& n.killed
            &&& n.timed_out <==> timed
            &&& n.hung <==> shows_wall_crossed(limits, s) && !shows_cpu_crossed(limits, s)
            &&& n.memory_exceeded <==> !timed
        }),
    decreases samples.len(),
{
    let before = samples.drop_last();
    if i < before.len() {
        assert(before[i] == samples[i]);
        assert forall|j: int| 0 <= j < i implies !shows_a_limit_crossed(
            limits,
            #[trigger] before[j],
        ) by {
            assert(before[j] == samples[j]);
        }
        the_first_crossed_limit_decides(limits, before, i);
    } else {
        assert forall|j: int| 0 <= j < before.len() implies !shows_a_limit_crossed(
            limits,
            #[trigger] before[j],
        ) by {
            assert(before[j] == samples[j]);
        }
        the_peak_is_the_largest_figure(limits, before);
        assert(samples.last() == samples[i]);
    }
}

/// As long as no look shows a limit crossed the process lives, and its peak memory
/// is the largest figure that any look showed.
pub proof fn the_peak_is_the_largest_figure(limits: RunLimits, samples: Seq<Sample>)
    requires
        forall|j: int|
            0 <= j < samples.len() ==> !shows_a_limit_crossed(limits, #[trigger] samples[j]),
    ensures
        ({
            let n = watched(limits, samples);
            &&& !n.killed && !n.timed_out && !n.hung && !n.memory_exceeded
            &&& forall|j: int|
                0 <= j < samples.len() && (#[trigger] samples[j]).resident is Some ==> n.peak
                    >= samples[j].resident->0
            &&& n.peak == 0 || exists|j: int|
                0 <= j < samples.len() && (#[trigger] samples[j]).resident == Some(n.peak)
        }),
    decreases samples.len(),
{
    if samples.len() > 0 {
        let before = samples.drop_last();
        assert forall|j: int| 0 <= j < before.len() implies !shows_a_limit_crossed(
            limits,
            #[trigger] before[j],
        ) by {
            assert(before[j] == samples[j]);
        }
        the_peak_is_the_largest_figure(limits, before);
        let last = samples.len() - 1;
        let m = watched(limits, before);
        let n = watched(limits, samples);
        assert(samples[last] == samples.last());
        assert(!shows_a_limit_crossed(limits, samples[last]));
        assert forall|j: int|
            0 <= j < samples.len() && (#[trigger] samples[j]).resident is Some implies n.peak
            >= samples[j].resident->0 by {
            if j < last {
                assert(before[j] == samples[j]);
            }
        }
        if n.peak == m.peak && n.peak != 0 {
            let j = choose|j: int|
                0 <= j < before.len() && (#[trigger] before[j]).resident == Some(m.peak);
            assert(samples[j] == before[j]);
        }
    }
}

/// The limits of a run are those that it was given.
pub proof fn a_run_is_watched_by_its_own_limits(spec: RunSpec, res: RunLimits)
    requires
        call_ensures(RunSpec::limits, (&spec,), res),
    ensures
        res.cpu == spec.cpu_limit,
        res.wall == spec.wall_limit,
        res.memory == spec.memory_limit,
{
}

/// The outcome of a run keeps what was decided on the way, and the final CPU time
/// counts too. Its figures are the final ones, and its peak the largest.
pub proof fn final_figures_count_too(
    m: Monitor,
    limits: RunLimits,
    max_resident: u64,
    cpu: Duration,
    wall: Duration,
    exit: ExitKind,
    res: RunStats,
)
    requires
        call_ensures(Monitor::finish, (m, &limits, max_resident, cpu, wall, exit), res),
    ensures
        res.timed_out <==> m.timed_out || cpu@ / 1_000_000 > limits.cpu@ / 1_000_000,
        res.hung == m.hung,
        res.memory_exceeded == m.memory_exceeded,
        res.cpu_time == cpu,
        res.wall_time == wall,
        res.peak_memory >= m.peak,
        res.peak_memory >= max_resident,
        res.peak_memory == m.peak || res.peak_memory == max_resident,
        res.exit == exit,
{
}

/// Inside a Windows job the final peak memory decides whether the limit was kept.
pub proof fn the_peak_of_a_job_decides(
    m: Monitor,
    limits: RunLimits,
    job_peak: u64,
    cpu: Duration,
    wall: Duration,
    exit_code: u32,
    res: RunStats,
)
    requires
        call_ensures(Monitor::finish_job, (m, &limits, job_peak, cpu, wall, exit_code), res),
    ensures
        res.timed_out <==> m.timed_out || cpu@ / 1_000_000 > limits.cpu@ / 1_000_000,
        res.hung == m.hung,
        res.memory_exceeded <==> job_peak > limits.memory,
        res.cpu_time == cpu,
        res.wall_time == wall,
        res.peak_memory == job_peak,
        res.exit is Code,
        exit_code <= i32::MAX ==> res.exit->Code_0 == exit_code,
        exit_code > i32::MAX ==> res.exit->Code_0 == exit_code - 0x1_0000_0000,
{
    assert(exit_code <= 0x7fff_ffff ==> exit_code as i32 == exit_code) by (bit_vector);
    assert(exit_code > 0x7fff_ffff ==> exit_code as i32 == exit_code - 0x1_0000_0000)
        by (bit_vector);
}

// ---------------------------------------------------------------------------
// The operating system's figures
// ---------------------------------------------------------------------------

/// A wait status holds the signal below 128 and the exit code above 256: without a
/// signal the process exited, with one it was killed, and the largest means that
/// it has not ended.
pub proof fn a_status_tells_code_or_signal(status: i32, res: ExitKind)
    requires
        call_ensures(decode_status, (status,), res),
    ensures
        status % 128 == 0 ==> res == ExitKind::Code(((status / 256) % 256) as i32),
        0 < status % 128 < 127 ==> res == ExitKind::Signal((status % 128) as i32),
        status % 128 == 127 ==> res == ExitKind::Code(-1i32),
{
    assert(status & 0x7f == status % 128) by (bit_vector);
    assert((status >> 8) & 0xff == (status / 256) % 256) by (bit_vector);
}

/// The kernel's figure counts kilobytes on Linux and bytes elsewhere.
pub proof fn resident_memory_is_counted_in_bytes(p: Platform, maxrss: i64, res: u64)
    requires
        call_ensures(ru_maxrss_bytes, (p, maxrss), res),
    ensures
        maxrss <= 0 ==> res == 0,
        maxrss > 0 && p == Platform::Linux ==> res == maxrss * 1024,
        maxrss > 0 && p != Platform::Linux ==> res == maxrss,
{
}

/// A span is read from its seconds and microseconds, or nanoseconds, each of which
/// counts in full where it is in its range, not at all below zero, and never for a
/// whole second.
pub proof fn clocks_are_read_in_full(sec: i64, sub: i64, micros: Duration, nanos: Duration)
    requires
        call_ensures(from_timeval, (sec, sub), micros),
        call_ensures(cpu_time, (sec, sub), nanos),
    ensures
        sec >= 0 && 0 <= sub < 1_000_000 ==> micros@ == sec * 1_000_000_000 + sub * 1000,
        sec >= 0 && 0 <= sub < 1_000_000_000 ==> nanos@ == sec * 1_000_000_000 + sub,
        sec < 0 && 0 <= sub < 1_000_000 ==> micros@ == sub * 1000 && nanos@ == sub,
        sec >= 0 && sub < 0 ==> micros@ == sec * 1_000_000_000 && nanos@ == sec * 1_000_000_000,
        sec < 0 && sub < 0 ==> micros@ == 0 && nanos@ == 0,
        sec >= 0 && sub >= 1_000_000 ==> micros@ == sec * 1_000_000_000 + 999_999 * 1000,
        sec >= 0 && sub >= 1_000_000_000 ==> nanos@ == sec * 1_000_000_000 + 999_999_999,
{
}

/// The CPU time of a process is what it took itself and what the system took for
/// it, together.
pub proof fn user_and_system_time_add_up(
    user_sec: i64,
    user_usec: i64,
    sys_sec: i64,
    sys_usec: i64,
    user: Duration,
    sys: Duration,
    res: Duration,
)
    requires
        call_ensures(from_timeval, (user_sec, user_usec), user),
        call_ensures(from_timeval, (sys_sec, sys_usec), sys),
        call_ensures(ru_cpu_time, (user_sec, user_usec, sys_sec, sys_usec), res),
    ensures
        res@ == user@ + sys@,
{
}

/// The CPU time of a Windows process is its kernel time and its user time, counted
/// in units of 100 ns.
pub proof fn kernel_and_user_time_add_up(
    kernel: u64,
    user: u64,
    kernel_high: u32,
    kernel_low: u32,
    user_high: u32,
    user_low: u32,
    res: Duration,
)
    requires
        kernel == kernel_high * 0x1_0000_0000 + kernel_low,
        user == user_high * 0x1_0000_0000 + user_low,
        call_ensures(process_cpu_time, (kernel_high, kernel_low, user_high, user_low), res),
    ensures
        res@ == kernel * 100 + user * 100,
{
}

proof fn lemma_field(v: Seq<Seq<char>>, prefix: Seq<char>, i: nat, k: int)
    requires
        i <= k <= v.len(),
        forall|j: int| i <= j < k ==> !starts_with(#[trigger] v[j], prefix),
        k < v.len() ==> starts_with(v[k], prefix),
    ensures
        field_from(v, prefix, i) == (if k < v.len() {
            Some(v[k].skip(prefix.len() as int))
        } else {
            None
        }),
    decreases k - i,
{
    if i < k {
        assert(!starts_with(v[i as int], prefix));
        lemma_field(v, prefix, i + 1, k);
    }
}

/// The unit behind a figure is passed over, however often it stands there, and
/// nothing else is.
pub proof fn units_are_passed_over(s: Seq<char>)
    ensures
        without_unit(s + seq!['k', 'B']) == without_unit(s),
        !(s.len() >= 2 && s[s.len() - 2] == 'k' && s[s.len() - 1] == 'B') ==> without_unit(s) == s,
{
    let t = s + seq!['k', 'B'];
    assert(t.take(t.len() - 2) =~= s);
}

/// The peak memory is read from the first line of a status that is labelled so: the
/// number of kilobytes behind the label, whatever the spacing, with or without the
/// unit behind it. What is no number there tells no peak.
pub proof fn the_peak_is_read_from_its_line(
    status: Seq<char>,
    k: int,
    gap: Seq<char>,
    figure: Seq<char>,
    other_gap: Seq<char>,
)
    requires
        0 <= k < lines_of(status).len(),
        forall|j: int|
            0 <= j < k ==> (#[trigger] lines_of(status)[j]).len() < 6 || lines_of(status)[j].take(6)
                != "VmHWM:"@,
        is_all_white(gap),
        is_all_white(other_gap),
        has_dense_ends(figure),
        figure.len() > 0 && figure.last() != 'B',
        lines_of(status)[k] == "VmHWM:"@ + gap + figure + other_gap + seq!['k', 'B']
            || lines_of(status)[k] == "VmHWM:"@ + gap + figure + other_gap,
    ensures
        peak_of_status(status) is Some <==> unsigned_value(figure) is Some && unsigned_value(
            figure,
        )->0 * 1024 <= u64::MAX,
        peak_of_status(status) is Some ==> peak_of_status(status)->0 == unsigned_value(figure)->0
            * 1024,
{
    reveal_strlit("VmHWM:");
    let prefix = "VmHWM:"@;
    assert(prefix.len() == 6);
    let v = lines_of(status);
    let line = v[k];
    assert(line.take(6) =~= prefix);
    lemma_field(v, prefix, 0, k);
    let field = line.skip(6);
    let spaced = gap + figure + other_gap;
    if line == prefix + gap + figure + other_gap + seq!['k', 'B'] {
        assert(field =~= spaced + seq!['k', 'B']);
        units_are_passed_over(spaced);
    } else {
        assert(field =~= spaced);
    }
    if other_gap.len() > 0 {
        assert(is_white(other_gap[other_gap.len() - 1]));
        assert(spaced[spaced.len() - 1] == other_gap[other_gap.len() - 1]);
    } else {
        assert(spaced[spaced.len() - 1] == figure[figure.len() - 1]);
    }
    assert(without_unit(spaced) == spaced);
    trimming_takes_away_the_blank_ends(gap, figure, other_gap);
}

/// A status without a line of that label tells no peak.
pub proof fn no_peak_without_its_line(status: Seq<char>)
    requires
        forall|j: int|
            0 <= j < lines_of(status).len() ==> (#[trigger] lines_of(status)[j]).len() < 6
                || lines_of(status)[j].take(6) != "VmHWM:"@,
    ensures
        peak_of_status(status) is None,
{
    reveal_strlit("VmHWM:");
    lemma_field(lines_of(status), "VmHWM:"@, 0, lines_of(status).len() as int);
}

/// A peak is a whole number of kilobytes, and is read from a line of that label.
pub proof fn peaks_are_read_from_somewhere(status: &str, res: Option<u64>)
    requires
        call_ensures(vm_hwm_bytes, (status,), res),
        res is Some,
    ensures
        res->0 % 1024 == 0,
        exists|j: int|
            0 <= j < lines_of(status@).len() && (#[trigger] lines_of(status@)[j]).len() >= 6
                && lines_of(status@)[j].take(6) == "VmHWM:"@,
{
    reveal_strlit("VmHWM:");
    if forall|j: int|
        0 <= j < lines_of(status@).len() ==> (#[trigger] lines_of(status@)[j]).len() < 6
            || lines_of(status@)[j].take(6) != "VmHWM:"@ {
        no_peak_without_its_line(status@);
    }
}

/// On a Windows command line every argument stands between double quotes, a space
/// from the next, and a double quote in it has a backslash in front.
pub proof fn arguments_are_quoted_one_by_one(
    a: Seq<char>,
    b: Seq<char>,
    c: char,
    v: Seq<Seq<char>>,
    w: Seq<Seq<char>>,
)
    ensures
        quoted_argument(a) == seq!['"'] + escaped_quotes(a) + seq!['"'],
        escaped_quotes(a + b) == escaped_quotes(a) + escaped_quotes(b),
        c != '"' ==> escaped_quotes(seq![c]) == seq![c],
        escaped_quotes(seq!['"']) == seq!['\\', '"'],
        command_line_of(seq![a]) == quoted_argument(a),
        v.len() > 0 && w.len() > 0 ==> command_line_of(v + w) == command_line_of(v) + seq![' ']
            + command_line_of(w),
{
    lemma_escaped(a, b);
    lemma_escaped_one(c);
    lemma_escaped_one('"');
    reveal_strlit(" ");
    let quoted = |s: Seq<char>| quoted_argument(s);
    assert(seq![a].map_values(quoted) =~= seq![quoted_argument(a)]);
    assert((v + w).map_values(quoted) =~= v.map_values(quoted) + w.map_values(quoted));
    joining_is_piecewise(v.map_values(quoted), w.map_values(quoted), " "@);
    assert(" "@ =~= seq![' ']);
}

proof fn lemma_escaped_one(c: char)
    ensures
        escaped_quotes(seq![c]) == (if c == '"' {
            seq!['\\', '"']
        } else {
            seq![c]
        }),
{
    let one = seq![c];
    let none = Seq::<char>::empty();
    assert(one.drop_last() =~= none);
    assert(escaped_quotes(none) =~= none);
    assert(one.last() == c);
    assert(none + seq!['\\', '"'] =~= seq!['\\', '"']);
    assert(none.push(c) =~= one);
}

proof fn lemma_escaped(a: Seq<char>, b: Seq<char>)
    ensures
        escaped_quotes(a + b) == escaped_quotes(a) + escaped_quotes(b),
    decreases b.len(),
{
    if b.len() == 0 {
        assert(a + b =~= a);
        assert(escaped_quotes(a) + escaped_quotes(b) =~= escaped_quotes(a));
    } else {
        assert((a + b).drop_last() =~= a + b.drop_last());
        assert((a + b).last() == b.last());
        lemma_escaped(a, b.drop_last());
        assert(escaped_quotes(a + b) =~= escaped_quotes(a) + escaped_quotes(b));
    }
}

/// A process that is alive is killed at once when a look shows a limit crossed, and
/// at no other; one that was told to die is not killed again.
pub proof fn a_look_kills_at_once(m: &mut Monitor, limits: RunLimits, s: Sample, kill: bool)
    requires
        call_ensures(Monitor::poll, (m, &limits, &s), kill),
    ensures
        old(m).killed ==> !kill && *final(m) == *old(m),
        !old(m).killed ==> (kill <==> shows_a_limit_crossed(limits, s)),
        !old(m).killed ==> final(m).killed == kill,
        !old(m).killed && !old(m).timed_out && !old(m).hung ==> {
            &&& final(m).timed_out <==> shows_cpu_crossed(limits, s) || shows_wall_crossed(
                limits,
                s,
            )
            &&& final(m).hung <==> shows_wall_crossed(limits, s) && !shows_cpu_crossed(limits, s)
        },
        !old(m).killed && !old(m).memory_exceeded ==> (final(m).memory_exceeded
            <==> shows_memory_crossed(limits, s) && !shows_cpu_crossed(limits, s)
            && !shows_wall_crossed(limits, s)),
        final(m).peak >= old(m).peak,
        final(m).peak == old(m).peak || s.resident == Some(final(m).peak),
        !old(m).killed && !shows_cpu_crossed(limits, s) && !shows_wall_crossed(limits, s)
            && s.resident is Some ==> final(m).peak >= s.resident->0,
{
}

/// A process of which nothing was seen yet is alive, crossed nothing and used
/// nothing.
pub proof fn a_fresh_process_did_nothing(res: Monitor)
    requires
        call_ensures(Monitor::new, (), res),
    ensures
        !res.killed,
        !res.timed_out,
        !res.hung,
        !res.memory_exceeded,
        res.peak == 0,
{
}

/// A command line is made of all the arguments, and is empty where there are none.
pub proof fn a_command_line_holds_every_argument(args: Vec<String>, res: String)
    requires
        call_ensures(command_line, (&args,), res),
    ensures
        res@ == command_line_of(texts(args@)),
        args@.len() == 0 ==> res@.len() == 0,
{
    if args@.len() == 0 {
        assert(texts(args@).len() == 0);
    }
}

} // verus!
