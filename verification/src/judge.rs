//! Judging one test: generate its input, run the candidate, run the reference,
//! and check the candidate's output.
//!
//! The programs are run around this library. What it holds is which program is
//! run next and how, and what follows from what was observed of it.

use vstd::prelude::*;
use vstd::string::*;
use vstd::utf8::*;

use crate::checker::{
    check_verdict, checker_name, custom_outcome, interpret_custom_exit, pairs_fit, BuiltinChecker,
    CustomOutcome, RealPair,
};
use crate::double::{half_even, nearest_double, round_div, to_double};
use crate::duration::{
    exceeds, max_nanos, printed_comparison_is_true, push_thousandths, shown_millis,
    thousandths_text, whole_millis, Duration,
};
use crate::lang::{encoded, join_text, lemma_ascii_component, Program};
use crate::number::{decimal, int_text, last_digits, push_decimal, push_int, push_last_digits};
use crate::path::{blobs, bytes_of, copy_blobs, path_in, push_blob, Platform};
use crate::runner::{ExitKind, RunSpec, RunStats};
use crate::text::{
    chars_of, join_from, joined, lines, lines_of, string_of, text_if_any, texts, trim, trim_end,
    trimmed, trimmed_end,
};

verus! {

/// What is found of a test.
#[derive(Debug, Clone, Copy, PartialEq, Eq, Structural)]
pub enum Verdict {
    Ac,
    Wa,
    Tle,
    Mle,
    Re,
    /// The generator, the reference or the checker failed, through no fault of
    /// the candidate.
    Failed,
}

/// A program that is trusted to behave.
#[derive(Debug, Clone, Copy, PartialEq, Eq, Structural)]
pub enum AuxProgram {
    Generator,
    Reference,
    Checker,
}

pub open spec fn aux_name(a: AuxProgram) -> Seq<char> {
    match a {
        AuxProgram::Generator => "generator"@,
        AuxProgram::Reference => "reference"@,
        AuxProgram::Checker => "checker"@,
    }
}

impl AuxProgram {
    /// What the program is called.
    pub fn name(self) -> (res: &'static str)
        ensures
            res@ == aux_name(self),
    {
        match self {
            AuxProgram::Generator => "generator",
            AuxProgram::Reference => "reference",
            AuxProgram::Checker => "checker",
        }
    }
}

/// The limits of a program.
#[derive(Debug, Clone, Copy)]
pub struct Limits {
    /// CPU time.
    pub time: Duration,
    /// Bytes.
    pub memory: u64,
}

/// The checker of a run.
pub enum Checker {
    Builtin(BuiltinChecker),
    Custom(Program),
}

pub open spec fn checker_text(c: Checker) -> Seq<char> {
    match c {
        Checker::Builtin(b) => checker_name(b) + " (builtin)"@,
        Checker::Custom(p) => p.display@ + " (custom)"@,
    }
}

impl Checker {
    /// The checker as the banner shows it.
    pub fn describe(&self) -> (res: String)
        ensures
            res@ == checker_text(*self),
    {
        match self {
            Checker::Builtin(b) => {
                let mut res = b.name().to_owned();
                res.append(" (builtin)");
                res
            },
            Checker::Custom(p) => {
                let mut res = p.display.as_str().to_owned();
                res.append(" (custom)");
                res
            },
        }
    }
}

/// The programs of a run and their limits.
pub struct Judge {
    pub candidate: Program,
    pub reference: Program,
    pub generator: Program,
    pub checker: Checker,
    pub candidate_limits: Limits,
    pub reference_limits: Limits,
    pub generator_limits: Limits,
    pub checker_limits: Limits,
    pub generator_args: Vec<String>,
    pub checker_args: Vec<String>,
}

/// What was found of one test, and the files it left.
pub struct TestReport {
    pub seed: u64,
    pub verdict: Verdict,
    /// CPU time of the candidate.
    pub candidate_time: Duration,
    pub candidate_wall: Duration,
    pub candidate_memory: u64,
    pub message: String,
    pub failed_aux: Option<AuxProgram>,
    /// A custom checker ran, and wrote its two files.
    pub checker_ran: bool,
    pub input: Vec<u8>,
    pub candidate_output: Vec<u8>,
    pub candidate_stderr: Vec<u8>,
    pub reference_output: Vec<u8>,
    pub generator_stderr: Vec<u8>,
    pub reference_stderr: Vec<u8>,
    pub checker_stdout: Vec<u8>,
    pub checker_stderr: Vec<u8>,
}

// ---------------------------------------------------------------------------
// Sizes, signals and what programs leave on standard error
// ---------------------------------------------------------------------------

/// A number of bytes as reports show it: in megabytes with one decimal from a
/// megabyte on, and in whole kilobytes below.
pub open spec fn memory_text(bytes: nat) -> Seq<char> {
    if bytes >= 0x10_0000 {
        let tenths = half_even(nearest_double(bytes) * 10, 0x10_0000);
        decimal(tenths / 10) + "."@ + last_digits(tenths, 1) + " MB"@
    } else {
        decimal(half_even(bytes, 1024)) + " KB"@
    }
}

fn push_memory(out: &mut String, bytes: u64)
    ensures
        final(out)@ == old(out)@ + memory_text(bytes as nat),
{
    let ghost before = out@;
    if bytes >= 0x10_0000 {
        let tenths: u128 = round_div(to_double(bytes) * 10, 0x10_0000);
        push_decimal(out, tenths / 10);
        out.append(".");
        push_last_digits(out, tenths, 1);
        out.append(" MB");
    } else {
        push_decimal(out, round_div(bytes as u128, 1024));
        out.append(" KB");
    }
    assert(out@ =~= before + memory_text(bytes as nat));
}

/// A number of bytes as reports show it.
pub fn format_memory(bytes: u64) -> (res: String)
    ensures
        res@ == memory_text(bytes as nat),
{
    let mut res = String::new();
    push_memory(&mut res, bytes);
    assert(res@ =~= memory_text(bytes as nat));
    res
}

/// What a signal is called. Windows has none.
pub open spec fn signal_text(p: Platform, sig: int) -> Seq<char> {
    if p == Platform::Windows {
        ""@
    } else if sig == 4 {
        "SIGILL"@
    } else if sig == 6 {
        "SIGABRT"@
    } else if sig == 7 {
        "SIGBUS"@
    } else if sig == 8 {
        "SIGFPE"@
    } else if sig == 9 {
        "SIGKILL"@
    } else if sig == 11 {
        "SIGSEGV"@
    } else if sig == 15 {
        "SIGTERM"@
    } else {
        "signal "@ + int_text(sig)
    }
}

/// What a signal is called.
pub fn signal_name(p: Platform, sig: i32) -> (res: String)
    ensures
        res@ == signal_text(p, sig as int),
{
    match p {
        Platform::Windows => "".to_owned(),
        _ => match sig {
            4 => "SIGILL".to_owned(),
            6 => "SIGABRT".to_owned(),
            7 => "SIGBUS".to_owned(),
            8 => "SIGFPE".to_owned(),
            9 => "SIGKILL".to_owned(),
            11 => "SIGSEGV".to_owned(),
            15 => "SIGTERM".to_owned(),
            _ => {
                let mut res = "signal ".to_owned();
                push_int(&mut res, sig as i64);
                res
            },
        },
    }
}

/// The last four lines of what a program wrote to standard error, as they are
/// added to a message; nothing where it wrote nothing.
pub open spec fn tail_text(stderr: Seq<char>) -> Seq<char> {
    let content = trimmed_end(stderr);
    let all = lines_of(content);
    if content.len() == 0 {
        ""@
    } else {
        "\n  stderr: "@ + joined(
            all.skip(
                if all.len() > 4 {
                    all.len() - 4
                } else {
                    0
                },
            ),
            " | "@,
        )
    }
}

/// The last four lines of what a program wrote to standard error, as they are
/// added to a message.
pub fn stderr_tail(stderr: &str) -> (res: String)
    ensures
        res@ == tail_text(stderr@),
{
    let content = trim_end(stderr);
    if content.as_str().is_empty() {
        return "".to_owned();
    }
    let all = lines(content.as_str());
    let start: usize = if all.len() > 4 {
        all.len() - 4
    } else {
        0
    };
    let mut res = "\n  stderr: ".to_owned();
    let tail = join_from(&all, start, " | ");
    res.append(tail.as_str());
    res
}

// ---------------------------------------------------------------------------
// Limits
// ---------------------------------------------------------------------------

/// How long a program with a limit on its CPU time may take by the clock on
/// the wall: twice the limit and ten seconds more, which a busy machine does
/// not exhaust but a program that hangs does.
pub open spec fn backstop_of(time: nat) -> nat {
    if 2 * time + 10_000_000_000 <= max_nanos() {
        2 * time + 10_000_000_000
    } else {
        max_nanos()
    }
}

/// How long a program with a limit on its CPU time may take by the clock on
/// the wall.
pub fn backstop(time: Duration) -> (res: Duration)
    ensures
        res@ == backstop_of(time@),
{
    time.plus(time).plus(Duration::from_millis(10_000))
}

/// Whether a program took more memory than it may.
pub open spec fn over_memory(s: RunStats, limits: Limits) -> bool {
    s.memory_exceeded || s.peak_memory > limits.memory
}

/// The time that is held against a program: by the clock on the wall where it
/// hung, and CPU time otherwise.
pub open spec fn time_held(s: RunStats) -> nat {
    if s.hung {
        s.wall_time@
    } else {
        s.cpu_time@
    }
}

/// How much time a program took, set against its limit. The limit is told in the
/// whole milliseconds that it is judged by, so that what is told is true.
pub open spec fn time_text(s: RunStats, limits: Limits) -> Seq<char> {
    thousandths_text(time_held(s)) + "s > "@ + thousandths_text(whole_millis(limits.time@))
        + "s"@
}

/// How much memory a program took, set against its limit.
pub open spec fn peak_text(s: RunStats, limits: Limits) -> Seq<char> {
    memory_text(s.peak_memory as nat) + " > "@ + memory_text(limits.memory as nat)
}

fn push_time(out: &mut String, s: &RunStats, limits: Limits)
    ensures
        final(out)@ == old(out)@ + time_text(*s, limits),
{
    let ghost before = out@;
    if s.hung {
        push_thousandths(out, s.wall_time);
    } else {
        push_thousandths(out, s.cpu_time);
    }
    out.append("s > ");
    push_thousandths(out, limits.time.to_millis());
    out.append("s");
    assert(out@ =~= before + time_text(*s, limits));
}

fn push_peak(out: &mut String, s: &RunStats, limits: Limits)
    ensures
        final(out)@ == old(out)@ + peak_text(*s, limits),
{
    let ghost before = out@;
    push_memory(out, s.peak_memory);
    out.append(" > ");
    push_memory(out, limits.memory);
    assert(out@ =~= before + peak_text(*s, limits));
}

// ---------------------------------------------------------------------------
// What follows from a program's run
// ---------------------------------------------------------------------------

/// What is known of a test.
pub struct Finding {
    pub verdict: Verdict,
    pub message: Seq<char>,
    pub failed_aux: Option<AuxProgram>,
}

/// Nothing is wrong so far.
pub open spec fn fine() -> Finding {
    Finding { verdict: Verdict::Ac, message: ""@, failed_aux: None }
}

/// The candidate is at fault.
pub open spec fn fault(verdict: Verdict, message: Seq<char>) -> Finding {
    Finding { verdict, message, failed_aux: None }
}

/// A trusted program misbehaved.
pub open spec fn failure(which: AuxProgram, message: Seq<char>) -> Finding {
    Finding { verdict: Verdict::Failed, message, failed_aux: Some(which) }
}

/// How a program that did not succeed ended.
pub open spec fn end_text(p: Platform, exit: ExitKind) -> Seq<char> {
    match exit {
        ExitKind::Code(c) => "exited with code "@ + int_text(c as int),
        ExitKind::Signal(s) => "killed by "@ + signal_text(p, s as int),
    }
}

fn push_end(out: &mut String, p: Platform, exit: ExitKind)
    ensures
        final(out)@ == old(out)@ + end_text(p, exit),
{
    let ghost before = out@;
    match exit {
        ExitKind::Code(c) => {
            out.append("exited with code ");
            push_int(out, c as i64);
        },
        ExitKind::Signal(s) => {
            out.append("killed by ");
            let name = signal_name(p, s);
            out.append(name.as_str());
        },
    }
    assert(out@ =~= before + end_text(p, exit));
}

/// What is wrong with a trusted program's run, if anything is.
pub open spec fn aux_problem(
    p: Platform,
    which: AuxProgram,
    s: RunStats,
    stderr: Seq<char>,
    limits: Limits,
) -> Option<Seq<char>> {
    if s.timed_out {
        Some(aux_name(which) + " timed out: "@ + time_text(s, limits))
    } else if over_memory(s, limits) {
        Some(aux_name(which) + " exceeded memory limit: "@ + peak_text(s, limits))
    } else if s.exit != ExitKind::Code(0) {
        Some(aux_name(which) + " "@ + end_text(p, s.exit) + tail_text(stderr))
    } else {
        None
    }
}

/// What is wrong with a trusted program's run, if anything is.
pub fn aux_failure(
    p: Platform,
    which: AuxProgram,
    s: &RunStats,
    stderr: &str,
    limits: Limits,
) -> (res: Option<String>)
    ensures
        text_if_any(res) == aux_problem(p, which, *s, stderr@, limits),
{
    let mut msg = which.name().to_owned();
    if s.timed_out {
        msg.append(" timed out: ");
        push_time(&mut msg, s, limits);
    } else if s.memory_exceeded || s.peak_memory > limits.memory {
        msg.append(" exceeded memory limit: ");
        push_peak(&mut msg, s, limits);
    } else if s.exit != ExitKind::Code(0) {
        msg.append(" ");
        push_end(&mut msg, p, s.exit);
        let tail = stderr_tail(stderr);
        msg.append(tail.as_str());
    } else {
        return None;
    }
    assert(msg@ =~= aux_problem(p, which, *s, stderr@, limits)->0);
    Some(msg)
}

/// What follows from the candidate's run.
pub open spec fn candidate_finding(
    p: Platform,
    s: RunStats,
    stderr: Seq<char>,
    limits: Limits,
) -> Finding {
    if s.timed_out {
        fault(Verdict::Tle, "time limit exceeded: "@ + time_text(s, limits))
    } else if over_memory(s, limits) {
        fault(Verdict::Mle, "memory limit exceeded: "@ + peak_text(s, limits))
    } else if s.exit != ExitKind::Code(0) {
        fault(Verdict::Re, end_text(p, s.exit) + tail_text(stderr))
    } else {
        fine()
    }
}

/// What follows from the run of a generator or a reference.
pub open spec fn aux_finding(
    p: Platform,
    which: AuxProgram,
    s: RunStats,
    stderr: Seq<char>,
    limits: Limits,
) -> Finding {
    match aux_problem(p, which, s, stderr, limits) {
        Some(msg) => failure(which, msg),
        None => fine(),
    }
}

/// A custom checker's own words, shortened, behind the verdict.
pub open spec fn wrong_answer_text(stderr: Seq<char>) -> Seq<char> {
    let msg = trimmed(stderr);
    let shortened = if msg.len() > 400 {
        msg.take(400)
    } else {
        msg
    };
    if msg.len() == 0 {
        "wrong answer"@
    } else {
        "wrong answer: "@ + shortened
    }
}

/// What follows from a custom checker's run.
pub open spec fn custom_finding(
    p: Platform,
    s: RunStats,
    stderr: Seq<char>,
    limits: Limits,
) -> Finding {
    let which = AuxProgram::Checker;
    if s.timed_out || over_memory(s, limits) {
        aux_finding(p, which, s, stderr, limits)
    } else {
        match s.exit {
            ExitKind::Code(c) => match custom_outcome(c as int) {
                CustomOutcome::Ac => fine(),
                CustomOutcome::Wa => fault(Verdict::Wa, wrong_answer_text(stderr)),
                CustomOutcome::Failed => failure(
                    which,
                    "checker "@ + end_text(p, s.exit) + tail_text(stderr),
                ),
            },
            ExitKind::Signal(_) => failure(which, "checker "@ + end_text(p, s.exit)),
        }
    }
}

/// What follows from a built-in checker's comparison.
pub open spec fn builtin_finding(difference: Option<Seq<char>>) -> Finding {
    match difference {
        Some(msg) => fault(Verdict::Wa, msg),
        None => fine(),
    }
}

/// What a report says is known of its test.
pub open spec fn finding_of(r: TestReport) -> Finding {
    Finding { verdict: r.verdict, message: r.message@, failed_aux: r.failed_aux }
}

/// Whether two reports are of the same test and its files.
pub open spec fn same_test(a: TestReport, b: TestReport) -> bool {
    &&& a.seed == b.seed
    &&& a.input@ == b.input@
    &&& a.candidate_output@ == b.candidate_output@
    &&& a.candidate_stderr@ == b.candidate_stderr@
    &&& a.reference_output@ == b.reference_output@
    &&& a.generator_stderr@ == b.generator_stderr@
    &&& a.reference_stderr@ == b.reference_stderr@
    &&& a.checker_stdout@ == b.checker_stdout@
    &&& a.checker_stderr@ == b.checker_stderr@
}

/// Whether two reports say the same of the candidate's run.
pub open spec fn same_figures(a: TestReport, b: TestReport) -> bool {
    &&& a.candidate_time == b.candidate_time
    &&& a.candidate_wall == b.candidate_wall
    &&& a.candidate_memory == b.candidate_memory
}

/// The files of a test in its working directory, before anything ran.
pub open spec fn fresh_report(r: TestReport, p: Platform, seed: u64, workdir: Seq<u8>) -> bool {
    &&& r.seed == seed
    &&& finding_of(r) == fine()
    &&& r.candidate_time@ == 0
    &&& r.candidate_wall@ == 0
    &&& r.candidate_memory == 0
    &&& !r.checker_ran
    &&& r.input@ == path_in(p, workdir, encode_utf8("input.txt"@))
    &&& r.candidate_output@ == path_in(p, workdir, encode_utf8("candidate-output.txt"@))
    &&& r.candidate_stderr@ == path_in(p, workdir, encode_utf8("candidate-stderr.txt"@))
    &&& r.reference_output@ == path_in(p, workdir, encode_utf8("reference-output.txt"@))
    &&& r.generator_stderr@ == path_in(p, workdir, encode_utf8("generator-stderr.txt"@))
    &&& r.reference_stderr@ == path_in(p, workdir, encode_utf8("reference-stderr.txt"@))
    &&& r.checker_stdout@ == path_in(p, workdir, encode_utf8("checker-stdout.txt"@))
    &&& r.checker_stderr@ == path_in(p, workdir, encode_utf8("checker-stderr.txt"@))
}

proof fn lemma_file_names(p: Platform)
    ensures
        crate::path::is_component(p, encode_utf8("input.txt"@)),
        crate::path::is_component(p, encode_utf8("candidate-output.txt"@)),
        crate::path::is_component(p, encode_utf8("candidate-stderr.txt"@)),
        crate::path::is_component(p, encode_utf8("reference-output.txt"@)),
        crate::path::is_component(p, encode_utf8("generator-stderr.txt"@)),
        crate::path::is_component(p, encode_utf8("reference-stderr.txt"@)),
        crate::path::is_component(p, encode_utf8("checker-stdout.txt"@)),
        crate::path::is_component(p, encode_utf8("checker-stderr.txt"@)),
{
    reveal_strlit("input.txt");
    reveal_strlit("candidate-output.txt");
    reveal_strlit("candidate-stderr.txt");
    reveal_strlit("reference-output.txt");
    reveal_strlit("generator-stderr.txt");
    reveal_strlit("reference-stderr.txt");
    reveal_strlit("checker-stdout.txt");
    reveal_strlit("checker-stderr.txt");
    lemma_ascii_component(p, "input.txt"@);
    lemma_ascii_component(p, "candidate-output.txt"@);
    lemma_ascii_component(p, "candidate-stderr.txt"@);
    lemma_ascii_component(p, "reference-output.txt"@);
    lemma_ascii_component(p, "generator-stderr.txt"@);
    lemma_ascii_component(p, "reference-stderr.txt"@);
    lemma_ascii_component(p, "checker-stdout.txt"@);
    lemma_ascii_component(p, "checker-stderr.txt"@);
}

impl TestReport {
    /// The report of a test of which nothing ran yet.
    pub fn base(p: Platform, seed: u64, workdir: &[u8]) -> (res: Self)
        ensures
            fresh_report(res, p, seed, workdir@),
    {
        proof {
            lemma_file_names(p);
        }
        TestReport {
            seed,
            verdict: Verdict::Ac,
            candidate_time: Duration::zero(),
            candidate_wall: Duration::zero(),
            candidate_memory: 0,
            message: "".to_owned(),
            failed_aux: None,
            checker_ran: false,
            input: join_text(p, workdir, "input.txt"),
            candidate_output: join_text(p, workdir, "candidate-output.txt"),
            candidate_stderr: join_text(p, workdir, "candidate-stderr.txt"),
            reference_output: join_text(p, workdir, "reference-output.txt"),
            generator_stderr: join_text(p, workdir, "generator-stderr.txt"),
            reference_stderr: join_text(p, workdir, "reference-stderr.txt"),
            checker_stdout: join_text(p, workdir, "checker-stdout.txt"),
            checker_stderr: join_text(p, workdir, "checker-stderr.txt"),
        }
    }
}

/// Marks a test as failed because a trusted program misbehaved.
pub fn fail_aux(report: &mut TestReport, which: AuxProgram, msg: String)
    ensures
        finding_of(*final(report)) == failure(which, msg@),
        same_test(*old(report), *final(report)),
        same_figures(*old(report), *final(report)),
        final(report).checker_ran == old(report).checker_ran,
{
    report.verdict = Verdict::Failed;
    report.failed_aux = Some(which);
    report.message = msg;
}

// ---------------------------------------------------------------------------
// The stages of a test
// ---------------------------------------------------------------------------

/// What is done next in a test.
#[derive(Debug, Clone, Copy, PartialEq, Eq, Structural)]
pub enum Stage {
    /// Run the generator.
    Generate,
    /// Run the candidate.
    RunCandidate,
    /// Run the reference.
    RunReference,
    /// Run the custom checker, or compare the outputs with a built-in one.
    Check,
    Done,
}

/// How a program is run: its arguments, its files and its limits.
pub struct Command {
    pub argv: Seq<Seq<u8>>,
    pub stdin: Option<Seq<u8>>,
    pub stdout: Seq<u8>,
    pub stderr: Seq<u8>,
    pub limits: Limits,
}

/// The generator gets its extra arguments and then the seed.
pub open spec fn generator_command(j: Judge, r: TestReport) -> Command {
    Command {
        argv: (blobs(j.generator.argv@) + encoded(texts(j.generator_args@))).push(
            encode_utf8(decimal(r.seed as nat)),
        ),
        stdin: None,
        stdout: r.input@,
        stderr: r.generator_stderr@,
        limits: j.generator_limits,
    }
}

pub open spec fn candidate_command(j: Judge, r: TestReport) -> Command {
    Command {
        argv: blobs(j.candidate.argv@),
        stdin: Some(r.input@),
        stdout: r.candidate_output@,
        stderr: r.candidate_stderr@,
        limits: j.candidate_limits,
    }
}

pub open spec fn reference_command(j: Judge, r: TestReport) -> Command {
    Command {
        argv: blobs(j.reference.argv@),
        stdin: Some(r.input@),
        stdout: r.reference_output@,
        stderr: r.reference_stderr@,
        limits: j.reference_limits,
    }
}

/// A custom checker gets the input, the output and the answer, and then its
/// extra arguments.
pub open spec fn checker_command(j: Judge, prog: Program, r: TestReport) -> Command {
    Command {
        argv: blobs(prog.argv@) + seq![r.input@, r.candidate_output@, r.reference_output@]
            + encoded(texts(j.checker_args@)),
        stdin: None,
        stdout: r.checker_stdout@,
        stderr: r.checker_stderr@,
        limits: j.checker_limits,
    }
}

/// The program that a stage runs, if it runs one.
pub open spec fn command_of(j: Judge, stage: Stage, r: TestReport) -> Option<Command> {
    match stage {
        Stage::Generate => Some(generator_command(j, r)),
        Stage::RunCandidate => Some(candidate_command(j, r)),
        Stage::RunReference => Some(reference_command(j, r)),
        Stage::Check => match j.checker {
            Checker::Builtin(_) => None,
            Checker::Custom(prog) => Some(checker_command(j, prog, r)),
        },
        Stage::Done => None,
    }
}

/// Whether running `spec` is running the command.
pub open spec fn executes(spec: RunSpec, c: Command) -> bool {
    &&& blobs(spec.argv@) == c.argv
    &&& match spec.stdin_file {
        Some(f) => c.stdin == Some(f@),
        None => c.stdin is None,
    }
    &&& spec.stdout_file is Some && spec.stdout_file->0@ == c.stdout
    &&& spec.stderr_file is Some && spec.stderr_file->0@ == c.stderr
    &&& spec.cpu_limit == c.limits.time
    &&& spec.wall_limit@ == backstop_of(c.limits.time@)
    &&& spec.memory_limit == c.limits.memory
}

fn limited_run(
    argv: Vec<Vec<u8>>,
    stdin: Option<Vec<u8>>,
    stdout: &[u8],
    stderr: &[u8],
    limits: Limits,
) -> (res: RunSpec)
    ensures
        res.argv == argv,
        res.stdin_file == stdin,
        res.stdout_file is Some && res.stdout_file->0@ == stdout@,
        res.stderr_file is Some && res.stderr_file->0@ == stderr@,
        res.cpu_limit == limits.time,
        res.wall_limit@ == backstop_of(limits.time@),
        res.memory_limit == limits.memory,
{
    RunSpec {
        argv,
        stdin_file: stdin,
        stdout_file: Some(bytes_of(stdout)),
        stderr_file: Some(bytes_of(stderr)),
        cpu_limit: limits.time,
        wall_limit: backstop(limits.time),
        memory_limit: limits.memory,
    }
}

fn push_args(argv: &mut Vec<Vec<u8>>, args: &Vec<String>)
    ensures
        blobs(final(argv)@) == blobs(old(argv)@) + encoded(texts(args@)),
{
    let ghost before = blobs(argv@);
    let ghost wanted = encoded(texts(args@));
    let mut i: usize = 0;
    assert(before + wanted.take(0) =~= before);
    while i < args.len()
        invariant
            i <= args@.len(),
            wanted == encoded(texts(args@)),
            blobs(argv@) == before + wanted.take(i as int),
        decreases args@.len() - i,
    {
        push_blob(argv, args[i].as_str().as_bytes());
        assert((before + wanted.take(i as int)).push(wanted[i as int]) =~= before + wanted.take(
            i + 1,
        ));
        i += 1;
    }
    assert(wanted.take(i as int) =~= wanted);
}

/// What was seen of a stage.
pub enum Seen {
    /// A program ran and wrote this to standard error.
    Ran { stats: RunStats, stderr: Seq<char> },
    /// A built-in checker found this difference.
    Compared(Option<Seq<char>>),
}

/// Whether something can be seen of a stage.
pub open spec fn can_see(j: Judge, stage: Stage, seen: Seen) -> bool {
    match stage {
        Stage::Done => false,
        Stage::Check => if j.checker is Builtin {
            seen is Compared
        } else {
            seen is Ran
        },
        _ => seen is Ran,
    }
}

/// What follows from what was seen of a stage.
pub open spec fn finding_after(p: Platform, j: Judge, stage: Stage, seen: Seen) -> Finding {
    match seen {
        Seen::Compared(difference) => builtin_finding(difference),
        Seen::Ran { stats, stderr } => match stage {
            Stage::Generate => aux_finding(
                p,
                AuxProgram::Generator,
                stats,
                stderr,
                j.generator_limits,
            ),
            Stage::RunCandidate => candidate_finding(p, stats, stderr, j.candidate_limits),
            Stage::RunReference => aux_finding(
                p,
                AuxProgram::Reference,
                stats,
                stderr,
                j.reference_limits,
            ),
            _ => custom_finding(p, stats, stderr, j.checker_limits),
        },
    }
}

/// The stage that follows: the next one as long as nothing is wrong.
pub open spec fn stage_after(stage: Stage, f: Finding) -> Stage {
    if f.verdict != Verdict::Ac {
        Stage::Done
    } else {
        match stage {
            Stage::Generate => Stage::RunCandidate,
            Stage::RunCandidate => Stage::RunReference,
            Stage::RunReference => Stage::Check,
            _ => Stage::Done,
        }
    }
}

/// A test under way.
pub struct TestRun {
    pub stage: Stage,
    pub report: TestReport,
}

impl Judge {
    /// Starts the test of a seed, in a working directory of its own.
    pub fn run_test(&self, p: Platform, seed: u64, workdir: &[u8]) -> (res: TestRun)
        ensures
            res.ok(),
            res.stage == Stage::Generate,
            fresh_report(res.report, p, seed, workdir@),
    {
        TestRun { stage: Stage::Generate, report: TestReport::base(p, seed, workdir) }
    }
}

impl TestRun {
    /// A test goes on only as long as nothing is wrong.
    pub open spec fn ok(self) -> bool {
        self.stage != Stage::Done ==> finding_of(self.report) == fine()
    }

    /// The program that is run next, if one is.
    pub fn next_run(&self, judge: &Judge) -> (res: Option<RunSpec>)
        ensures
            match res {
                Some(spec) => command_of(*judge, self.stage, self.report) is Some && executes(
                    spec,
                    command_of(*judge, self.stage, self.report)->0,
                ),
                None => command_of(*judge, self.stage, self.report) is None,
            },
    {
        let r = &self.report;
        match self.stage {
            Stage::Generate => {
                let mut argv = copy_blobs(&judge.generator.argv);
                push_args(&mut argv, &judge.generator_args);
                let mut seed = String::new();
                push_decimal(&mut seed, r.seed as u128);
                assert(seed@ =~= decimal(r.seed as nat));
                push_blob(&mut argv, seed.as_str().as_bytes());
                Some(
                    limited_run(
                        argv,
                        None,
                        &r.input,
                        &r.generator_stderr,
                        judge.generator_limits,
                    ),
                )
            },
            Stage::RunCandidate => Some(
                limited_run(
                    copy_blobs(&judge.candidate.argv),
                    Some(bytes_of(&r.input)),
                    &r.candidate_output,
                    &r.candidate_stderr,
                    judge.candidate_limits,
                ),
            ),
            Stage::RunReference => Some(
                limited_run(
                    copy_blobs(&judge.reference.argv),
                    Some(bytes_of(&r.input)),
                    &r.reference_output,
                    &r.reference_stderr,
                    judge.reference_limits,
                ),
            ),
            Stage::Check => match &judge.checker {
                Checker::Builtin(_) => None,
                Checker::Custom(prog) => {
                    let mut argv = copy_blobs(&prog.argv);
                    push_blob(&mut argv, &r.input);
                    push_blob(&mut argv, &r.candidate_output);
                    push_blob(&mut argv, &r.reference_output);
                    push_args(&mut argv, &judge.checker_args);
                    assert(blobs(argv@) =~= checker_command(*judge, *prog, *r).argv);
                    Some(
                        limited_run(
                            argv,
                            None,
                            &r.checker_stdout,
                            &r.checker_stderr,
                            judge.checker_limits,
                        ),
                    )
                },
            },
            Stage::Done => None,
        }
    }

    /// Takes in what came of the program that was run.
    pub fn ran(&mut self, p: Platform, judge: &Judge, stats: &RunStats, stderr: &str)
        requires
            old(self).ok(),
            can_see(
                *judge,
                old(self).stage,
                (Seen::Ran { stats: *stats, stderr: stderr@ }),
            ),
        ensures
            final(self).ok(),
            finding_of(final(self).report) == finding_after(
                p,
                *judge,
                old(self).stage,
                (Seen::Ran { stats: *stats, stderr: stderr@ }),
            ),
            final(self).stage == stage_after(old(self).stage, finding_of(final(self).report)),
            same_test(old(self).report, final(self).report),
            if old(self).stage == Stage::RunCandidate {
                &&& final(self).report.candidate_time == stats.cpu_time
                &&& final(self).report.candidate_wall == stats.wall_time
                &&& final(self).report.candidate_memory == stats.peak_memory
            } else {
                same_figures(old(self).report, final(self).report)
            },
            final(self).report.checker_ran == (old(self).report.checker_ran || old(self).stage
                == Stage::Check),
    {
        match self.stage {
            Stage::Generate => {
                match aux_failure(
                    p,
                    AuxProgram::Generator,
                    stats,
                    stderr,
                    judge.generator_limits,
                ) {
                    Some(msg) => {
                        fail_aux(&mut self.report, AuxProgram::Generator, msg);
                        self.stage = Stage::Done;
                    },
                    None => {
                        self.stage = Stage::RunCandidate;
                    },
                }
            },
            Stage::RunCandidate => {
                self.report.candidate_time = stats.cpu_time;
                self.report.candidate_wall = stats.wall_time;
                self.report.candidate_memory = stats.peak_memory;
                let limits = judge.candidate_limits;
                if stats.timed_out {
                    let mut msg = "time limit exceeded: ".to_owned();
                    push_time(&mut msg, stats, limits);
                    self.report.verdict = Verdict::Tle;
                    self.report.message = msg;
                    self.stage = Stage::Done;
                } else if stats.memory_exceeded || stats.peak_memory > limits.memory {
                    let mut msg = "memory limit exceeded: ".to_owned();
                    push_peak(&mut msg, stats, limits);
                    self.report.verdict = Verdict::Mle;
                    self.report.message = msg;
                    self.stage = Stage::Done;
                } else if stats.exit != ExitKind::Code(0) {
                    let mut msg = String::new();
                    push_end(&mut msg, p, stats.exit);
                    let tail = stderr_tail(stderr);
                    msg.append(tail.as_str());
                    assert(msg@ =~= end_text(p, stats.exit) + tail_text(stderr@));
                    self.report.verdict = Verdict::Re;
                    self.report.message = msg;
                    self.stage = Stage::Done;
                } else {
                    self.stage = Stage::RunReference;
                }
            },
            Stage::RunReference => {
                match aux_failure(
                    p,
                    AuxProgram::Reference,
                    stats,
                    stderr,
                    judge.reference_limits,
                ) {
                    Some(msg) => {
                        fail_aux(&mut self.report, AuxProgram::Reference, msg);
                        self.stage = Stage::Done;
                    },
                    None => {
                        self.stage = Stage::Check;
                    },
                }
            },
            _ => {
                self.report.checker_ran = true;
                self.checked(p, judge.checker_limits, stats, stderr);
            },
        }
    }

    /// Takes in what came of a custom checker.
    fn checked(&mut self, p: Platform, limits: Limits, stats: &RunStats, stderr: &str)
        requires
            finding_of(old(self).report) == fine(),
        ensures
            finding_of(final(self).report) == custom_finding(p, *stats, stderr@, limits),
            final(self).stage == Stage::Done,
            same_test(old(self).report, final(self).report),
            same_figures(old(self).report, final(self).report),
            final(self).report.checker_ran == old(self).report.checker_ran,
    {
        let which = AuxProgram::Checker;
        self.stage = Stage::Done;
        if stats.timed_out || stats.memory_exceeded || stats.peak_memory > limits.memory {
            match aux_failure(p, which, stats, stderr, limits) {
                Some(msg) => fail_aux(&mut self.report, which, msg),
                None => {},
            }
            return;
        }
        let mut msg = "checker ".to_owned();
        push_end(&mut msg, p, stats.exit);
        match stats.exit {
            ExitKind::Code(c) => match interpret_custom_exit(c) {
                CustomOutcome::Ac => {},
                CustomOutcome::Wa => {
                    let words = wrong_answer(stderr);
                    self.report.verdict = Verdict::Wa;
                    self.report.message = words;
                },
                CustomOutcome::Failed => {
                    let tail = stderr_tail(stderr);
                    msg.append(tail.as_str());
                    fail_aux(&mut self.report, which, msg);
                },
            },
            ExitKind::Signal(_) => fail_aux(&mut self.report, which, msg),
        }
    }

    /// Compares the outputs with a built-in checker, `pairs` being what
    /// arithmetic found of each pair of reals.
    pub fn compare(&mut self, judge: &Judge, output: &str, answer: &str, pairs: &[RealPair])
        requires
            old(self).ok(),
            old(self).stage == Stage::Check,
            judge.checker is Builtin,
            pairs_fit(judge.checker->Builtin_0, output@, answer@, pairs@),
        ensures
            final(self).ok(),
            finding_of(final(self).report) == builtin_finding(
                check_verdict(judge.checker->Builtin_0, output@, answer@, pairs@),
            ),
            final(self).stage == Stage::Done,
            same_test(old(self).report, final(self).report),
            same_figures(old(self).report, final(self).report),
            final(self).report.checker_ran == old(self).report.checker_ran,
    {
        self.stage = Stage::Done;
        if let Checker::Builtin(c) = &judge.checker {
            match c.check(output, answer, pairs) {
                Some(msg) => {
                    self.report.verdict = Verdict::Wa;
                    self.report.message = msg;
                },
                None => {},
            }
        }
    }
}

/// A custom checker's own words, shortened, behind the verdict.
fn wrong_answer(stderr: &str) -> (res: String)
    ensures
        res@ == wrong_answer_text(stderr@),
{
    let msg = trim(stderr);
    if msg.as_str().is_empty() {
        return "wrong answer".to_owned();
    }
    let mut res = "wrong answer: ".to_owned();
    let chars = chars_of(msg.as_str());
    if chars.len() > 400 {
        assert(chars@.subrange(0, 400) =~= msg@.take(400));
        let shortened = string_of(&chars[0..400]);
        res.append(shortened.as_str());
    } else {
        res.append(msg.as_str());
    }
    res
}

// ---------------------------------------------------------------------------
// Laws
// ---------------------------------------------------------------------------

/// Where a test stands and what is known of it after a series of observations,
/// if each could be made at the stage that was due.
pub open spec fn progress(p: Platform, j: Judge, seen: Seq<Seen>) -> Option<(Stage, Finding)>
    decreases seen.len(),
{
    if seen.len() == 0 {
        Some((Stage::Generate, fine()))
    } else {
        match progress(p, j, seen.drop_last()) {
            None => None,
            Some((stage, _)) => if can_see(j, stage, seen.last()) {
                let f = finding_after(p, j, stage, seen.last());
                Some((stage_after(stage, f), f))
            } else {
                None
            },
        }
    }
}

/// Whether a test is over.
pub open spec fn is_over(p: Platform, j: Judge, seen: Seq<Seen>) -> bool {
    match progress(p, j, seen) {
        Some((stage, _)) => stage == Stage::Done,
        None => false,
    }
}

/// What is known of a test.
pub open spec fn known(p: Platform, j: Judge, seen: Seq<Seen>) -> Finding {
    let (_, f) = progress(p, j, seen)->0;
    f
}

/// The place of a stage in a test.
pub open spec fn stage_number(stage: Stage) -> nat {
    match stage {
        Stage::Generate => 0,
        Stage::RunCandidate => 1,
        Stage::RunReference => 2,
        Stage::Check => 3,
        Stage::Done => 4,
    }
}

pub open spec fn stage_at(n: int) -> Stage {
    if n == 0 {
        Stage::Generate
    } else if n == 1 {
        Stage::RunCandidate
    } else if n == 2 {
        Stage::RunReference
    } else {
        Stage::Check
    }
}

/// Whether the programs of the first `n` stages did what they should.
pub open spec fn passed(p: Platform, j: Judge, seen: Seq<Seen>, n: int) -> bool {
    forall|i: int|
        0 <= i < n ==> (#[trigger] finding_after(p, j, stage_at(i), seen[i])).verdict == Verdict::Ac
}

/// What passed still passed when more is seen.
proof fn lemma_passed_extended(p: Platform, j: Judge, seen: Seq<Seen>)
    requires
        seen.len() > 0,
        passed(p, j, seen.drop_last(), seen.len() - 1),
    ensures
        passed(p, j, seen, seen.len() - 1),
        finding_after(p, j, stage_at(seen.len() - 1), seen.last()).verdict == Verdict::Ac
            ==> passed(p, j, seen, seen.len() as int),
{
    let before = seen.drop_last();
    assert forall|i: int| 0 <= i < before.len() implies (#[trigger] finding_after(
        p,
        j,
        stage_at(i),
        seen[i],
    )).verdict == Verdict::Ac by {
        assert(finding_after(p, j, stage_at(i), before[i]).verdict == Verdict::Ac);
    }
}

/// Whether a test that stands at `stage`, of which `f` is known, has come there
/// through the stages in their order.
pub open spec fn in_order(
    p: Platform,
    j: Judge,
    seen: Seq<Seen>,
    stage: Stage,
    f: Finding,
) -> bool {
    let n = seen.len() as int;
    if stage == Stage::Done {
        &&& 0 < n <= 4
        &&& passed(p, j, seen, n - 1)
        &&& f == finding_after(p, j, stage_at(n - 1), seen.last())
        &&& f.verdict != Verdict::Ac || n == 4
    } else {
        &&& stage_number(stage) == n
        &&& f.verdict == Verdict::Ac
        &&& passed(p, j, seen, n)
    }
}

/// The stages come in their order, each only after all before it passed, and
/// the last one is where the test ends.
#[verifier::spinoff_prover]
pub proof fn stages_come_in_order(p: Platform, j: Judge, seen: Seq<Seen>)
    requires
        progress(p, j, seen) is Some,
    ensures
        seen.len() <= 4,
        ({
            let (stage, f) = progress(p, j, seen)->0;
            in_order(p, j, seen, stage, f)
        }),
    decreases seen.len(),
{
    if seen.len() > 0 {
        let before = seen.drop_last();
        stages_come_in_order(p, j, before);
        let (stage, _) = progress(p, j, before)->0;
        assert(stage == stage_at(before.len() as int));
        lemma_passed_extended(p, j, seen);
    }
}

/// A trusted program misbehaved if and only if the verdict is that the test
/// failed, and then the report names it.
pub proof fn failures_name_their_program(p: Platform, j: Judge, seen: Seq<Seen>)
    requires
        progress(p, j, seen) is Some,
    ensures
        ({
            let (_, f) = progress(p, j, seen)->0;
            f.verdict == Verdict::Failed <==> f.failed_aux is Some
        }),
{
}

/// A program that kept its limits and reported success.
pub open spec fn behaved(stats: RunStats, limits: Limits) -> bool {
    &&& !stats.timed_out
    &&& !over_memory(stats, limits)
    &&& stats.exit == ExitKind::Code(0)
}

/// A test is accepted if and only if all of its stages passed: the generator,
/// the candidate and the reference behaved, and the checker found nothing.
pub proof fn accepted_tests_passed_every_stage(p: Platform, j: Judge, seen: Seq<Seen>)
    requires
        is_over(p, j, seen),
    ensures
        known(p, j, seen).verdict == Verdict::Ac <==> {
            &&& seen.len() == 4
            &&& seen[0] is Ran && behaved(seen[0]->stats, j.generator_limits)
            &&& seen[1] is Ran && behaved(seen[1]->stats, j.candidate_limits)
            &&& seen[2] is Ran && behaved(seen[2]->stats, j.reference_limits)
            &&& match seen[3] {
                Seen::Compared(difference) => difference is None,
                Seen::Ran { stats, .. } => behaved(stats, j.checker_limits),
            }
        },
{
    stages_come_in_order(p, j, seen);
    lemma_sights(p, j, seen);
    let (_, f) = progress(p, j, seen)->0;
    if seen.len() == 4 {
        assert(finding_after(p, j, stage_at(0), seen[0]).verdict == Verdict::Ac);
        assert(finding_after(p, j, stage_at(1), seen[1]).verdict == Verdict::Ac);
        assert(finding_after(p, j, stage_at(2), seen[2]).verdict == Verdict::Ac);
        assert(f == finding_after(p, j, stage_at(3), seen[3]));
    }
}

/// What was seen could be seen at its stage.
proof fn lemma_sights(p: Platform, j: Judge, seen: Seq<Seen>)
    requires
        progress(p, j, seen) is Some,
    ensures
        forall|i: int| 0 <= i < seen.len() ==> can_see(j, stage_at(i), #[trigger] seen[i]),
    decreases seen.len(),
{
    if seen.len() > 0 {
        let before = seen.drop_last();
        lemma_sights(p, j, before);
        stages_come_in_order(p, j, before);
        let (stage, _) = progress(p, j, before)->0;
        assert(stage == stage_at(before.len() as int));
        assert forall|i: int| 0 <= i < seen.len() implies can_see(
            j,
            stage_at(i),
            #[trigger] seen[i],
        ) by {
            if i < before.len() {
                assert(seen[i] == before[i]);
            }
        }
    }
}

/// The verdict tells the stage that decided: time, memory and exit of the
/// candidate are judged right after a generator that behaved; a wrong answer
/// comes of the check alone, after a reference that behaved; and a failure
/// belongs to the stage of the program it names.
pub proof fn verdicts_tell_their_stage(p: Platform, j: Judge, seen: Seq<Seen>)
    requires
        is_over(p, j, seen),
    ensures
        ({
            let (_, f) = progress(p, j, seen)->0;
            let n = seen.len();
            &&& passed(p, j, seen, n - 1)
            &&& f.verdict == Verdict::Tle || f.verdict == Verdict::Mle || f.verdict == Verdict::Re
                ==> n == 2
            &&& f.verdict == Verdict::Wa ==> n == 4
            &&& f.failed_aux == Some(AuxProgram::Generator) ==> n == 1
            &&& f.failed_aux == Some(AuxProgram::Reference) ==> n == 3
            &&& f.failed_aux == Some(AuxProgram::Checker) ==> n == 4
        }),
{
    stages_come_in_order(p, j, seen);
    lemma_sights(p, j, seen);
    assert(can_see(j, stage_at(seen.len() - 1), seen[seen.len() - 1]));
}

/// Of several limits that a candidate broke, time counts before memory and
/// memory before the way it ended.
pub proof fn time_counts_before_memory(
    p: Platform,
    stats: RunStats,
    stderr: Seq<char>,
    limits: Limits,
)
    ensures
        candidate_finding(p, stats, stderr, limits).verdict == (if stats.timed_out {
            Verdict::Tle
        } else if over_memory(stats, limits) {
            Verdict::Mle
        } else if stats.exit != ExitKind::Code(0) {
            Verdict::Re
        } else {
            Verdict::Ac
        }),
{
}

/// What a message says of a program that was out of time is literally true: the
/// time it prints is more than the limit it prints. (Limits are below 2 to the
/// 43rd seconds here.)
pub proof fn timeouts_are_told_truly(s: RunStats, limits: Limits)
    requires
        if s.hung {
            s.wall_time@ >= backstop_of(limits.time@)
        } else {
            exceeds(s.cpu_time@, limits.time@)
        },
        s.wall_time@ <= max_nanos(),
        s.cpu_time@ <= max_nanos(),
        limits.time@ < 0x800_0000_0000 * 1_000_000_000,
    ensures
        shown_millis(time_held(s)) > shown_millis(whole_millis(limits.time@)),
{
    printed_comparison_is_true(time_held(s), limits.time@);
}

/// How busy the machine is makes no difference: unless a program hung,
/// what follows from its run does not depend on how long it took by the clock
/// on the wall.
pub proof fn a_busy_machine_does_not_change_the_verdict(
    p: Platform,
    j: Judge,
    stage: Stage,
    stats: RunStats,
    stderr: Seq<char>,
    wall_time: Duration,
)
    requires
        !stats.hung,
    ensures
        finding_after(p, j, stage, (Seen::Ran { stats, stderr })) == finding_after(
            p,
            j,
            stage,
            (Seen::Ran { stats: RunStats { wall_time, ..stats }, stderr }),
        ),
{
}

/// A generator gets the seed as its last argument, behind everything else.
pub proof fn the_seed_comes_last(j: Judge, r: TestReport)
    ensures
        ({
            let argv = generator_command(j, r).argv;
            &&& argv.last() == encode_utf8(decimal(r.seed as nat))
            &&& argv.drop_last() == blobs(j.generator.argv@) + encoded(texts(j.generator_args@))
        }),
{
    let argv = generator_command(j, r).argv;
    assert(argv.drop_last() =~= blobs(j.generator.argv@) + encoded(texts(j.generator_args@)));
}

/// The generator's arguments depend on the seed alone, so that the same seed
/// asks for the same test again.
pub proof fn the_same_seed_asks_for_the_same_test(j: Judge, r1: TestReport, r2: TestReport)
    requires
        r1.seed == r2.seed,
    ensures
        generator_command(j, r1).argv == generator_command(j, r2).argv,
{
}

/// What the generator writes is what both programs read, and a custom checker
/// is given it together with what the two programs wrote.
pub proof fn a_test_is_one_cycle(j: Judge, r: TestReport, prog: Program)
    ensures
        candidate_command(j, r).stdin == Some(generator_command(j, r).stdout),
        reference_command(j, r).stdin == Some(generator_command(j, r).stdout),
        ({
            let n = prog.argv@.len() as int;
            let argv = checker_command(j, prog, r).argv;
            &&& argv.take(n) == blobs(prog.argv@)
            &&& argv[n] == generator_command(j, r).stdout
            &&& argv[n + 1] == candidate_command(j, r).stdout
            &&& argv[n + 2] == reference_command(j, r).stdout
            &&& argv.skip(n + 3) == encoded(texts(j.checker_args@))
        }),
{
    let n = prog.argv@.len() as int;
    let argv = checker_command(j, prog, r).argv;
    assert(argv.take(n) =~= blobs(prog.argv@));
    assert(argv.skip(n + 3) =~= encoded(texts(j.checker_args@)));
}

} // verus!
