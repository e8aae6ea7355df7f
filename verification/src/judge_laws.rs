//! What holds of every test: which program a stage runs and how, what follows from
//! its run, and what is said of it.

use vstd::prelude::*;
use vstd::string::*;
use vstd::utf8::*;

use crate::checker::{check_verdict, BuiltinChecker, RealPair};
use crate::duration::{max_nanos, thousandths_text};
use crate::judge::{
    accepted_tests_passed_every_stage, aux_failure, backstop, fail_aux, finding_after, is_over,
    known, memory_text, signal_name, signal_text, stage_after, stderr_tail, tail_text, time_text,
    wrong_answer_text, AuxProgram, Checker, Finding, Judge, Limits, Seen, Stage, TestReport,
    TestRun, Verdict,
};
use crate::lang::encoded;
use crate::number::{decimal, int_text};
use crate::path::{blobs, front_of, Platform};
use crate::runner::{ExitKind, RunSpec, RunStats};
use crate::text::{is_white, joined, lines_of, text_if_any, texts};
use crate::text_laws::{has_dense_ends, is_all_white, trimming_takes_away_the_blank_ends};

verus! {

// ---------------------------------------------------------------------------
// Which program is run, and how
// ---------------------------------------------------------------------------

/// Whether a run is limited so: CPU time and memory as given, and the clock on the
/// wall by twice the CPU time and ten seconds, or by the longest span there is.
pub open spec fn runs_under(spec: RunSpec, limits: Limits) -> bool {
    &&& spec.cpu_limit == limits.time
    &&& spec.memory_limit == limits.memory
    &&& 2 * limits.time@ + 10_000_000_000 <= max_nanos() ==> spec.wall_limit@ == 2 * limits.time@
        + 10_000_000_000
    &&& 2 * limits.time@ + 10_000_000_000 > max_nanos() ==> spec.wall_limit@ == max_nanos()
}

/// Whether a run reads and writes these files and no others.
pub open spec fn uses_files(
    spec: RunSpec,
    stdin: Option<Seq<u8>>,
    stdout: Seq<u8>,
    stderr: Seq<u8>,
) -> bool {
    &&& spec.stdin_file is Some <==> stdin is Some
    &&& spec.stdin_file is Some ==> spec.stdin_file->0@ == stdin->0
    &&& spec.stdout_file is Some && spec.stdout_file->0@ == stdout
    &&& spec.stderr_file is Some && spec.stderr_file->0@ == stderr
}

/// Whether the arguments from `start` on are these.
pub open spec fn has_arguments(spec: RunSpec, start: int, args: Seq<Vec<u8>>) -> bool {
    &&& start + args.len() <= spec.argv@.len()
    &&& forall|k: int| 0 <= k < args.len() ==> spec.argv@[start + k]@ == (#[trigger] args[k])@
}

/// Whether the arguments from `start` on are these texts.
pub open spec fn has_text_arguments(spec: RunSpec, start: int, args: Seq<String>) -> bool {
    &&& start + args.len() <= spec.argv@.len()
    &&& forall|k: int|
        0 <= k < args.len() ==> spec.argv@[start + k]@ == encode_utf8((#[trigger] args[k])@)
}

proof fn lemma_arguments(spec: RunSpec, front: Seq<Seq<u8>>, args: Seq<Vec<u8>>, back: Seq<Seq<u8>>)
    requires
        blobs(spec.argv@) == front + blobs(args) + back,
    ensures
        has_arguments(spec, front.len() as int, args),
        spec.argv@.len() == front.len() + args.len() + back.len(),
        forall|k: int|
            0 <= k < back.len() ==> spec.argv@[front.len() + args.len() + k]@ == #[trigger] back[k],
{
    let all = blobs(spec.argv@);
    assert(all.len() == spec.argv@.len());
    assert forall|k: int| 0 <= k < args.len() implies spec.argv@[front.len() + k]@
        == (#[trigger] args[k])@ by {
        assert(all[front.len() + k] == blobs(args)[k]);
    }
    assert forall|k: int| 0 <= k < back.len() implies spec.argv@[front.len() + args.len() + k]@
        == #[trigger] back[k] by {
        assert(all[front.len() + args.len() + k] == back[k]);
    }
}

/// First the generator runs, under its own limits. It gets its own arguments, the
/// extra ones and the seed at the end, and writes the test's input.
pub proof fn the_generator_runs_first(t: TestRun, j: Judge, res: Option<RunSpec>)
    requires
        t.stage == Stage::Generate,
        call_ensures(TestRun::next_run, (&t, &j), res),
    ensures
        res is Some,
        ({
            let spec = res->0;
            let n = j.generator.argv@.len() as int;
            let m = j.generator_args@.len() as int;
            &&& runs_under(spec, j.generator_limits)
            &&& uses_files(spec, None, t.report.input@, t.report.generator_stderr@)
            &&& spec.argv@.len() == n + m + 1
            &&& has_arguments(spec, 0, j.generator.argv@)
            &&& has_text_arguments(spec, n, j.generator_args@)
            &&& spec.argv@[n + m]@ == encode_utf8(decimal(t.report.seed as nat))
        }),
{
    let spec = res->0;
    let none = Seq::<Seq<u8>>::empty();
    let n = j.generator.argv@.len() as int;
    let args = encoded(texts(j.generator_args@));
    let back = args.push(encode_utf8(decimal(t.report.seed as nat)));
    assert(blobs(spec.argv@) =~= none + blobs(j.generator.argv@) + back);
    lemma_arguments(spec, none, j.generator.argv@, back);
    assert forall|k: int| 0 <= k < j.generator_args@.len() implies spec.argv@[n + k]@
        == encode_utf8((#[trigger] j.generator_args@[k])@) by {
        assert(back[k] == encode_utf8(j.generator_args@[k]@));
    }
    assert(back[args.len() as int] == encode_utf8(decimal(t.report.seed as nat)));
}

/// Then the candidate runs, under its own limits: it reads the input and writes
/// its output.
pub proof fn the_candidate_runs_under_its_own_limits(t: TestRun, j: Judge, res: Option<RunSpec>)
    requires
        t.stage == Stage::RunCandidate,
        call_ensures(TestRun::next_run, (&t, &j), res),
    ensures
        res is Some,
        runs_under(res->0, j.candidate_limits),
        uses_files(
            res->0,
            Some(t.report.input@),
            t.report.candidate_output@,
            t.report.candidate_stderr@,
        ),
        res->0.argv@.len() == j.candidate.argv@.len(),
        has_arguments(res->0, 0, j.candidate.argv@),
{
    let none = Seq::<Seq<u8>>::empty();
    assert(blobs(res->0.argv@) =~= none + blobs(j.candidate.argv@) + none);
    lemma_arguments(res->0, none, j.candidate.argv@, none);
}

/// Then the reference runs, under its own limits, not the candidate's: it reads the
/// same input and writes the answer.
pub proof fn the_reference_runs_under_its_own_limits(t: TestRun, j: Judge, res: Option<RunSpec>)
    requires
        t.stage == Stage::RunReference,
        call_ensures(TestRun::next_run, (&t, &j), res),
    ensures
        res is Some,
        runs_under(res->0, j.reference_limits),
        uses_files(
            res->0,
            Some(t.report.input@),
            t.report.reference_output@,
            t.report.reference_stderr@,
        ),
        res->0.argv@.len() == j.reference.argv@.len(),
        has_arguments(res->0, 0, j.reference.argv@),
{
    let none = Seq::<Seq<u8>>::empty();
    assert(blobs(res->0.argv@) =~= none + blobs(j.reference.argv@) + none);
    lemma_arguments(res->0, none, j.reference.argv@, none);
}

/// Last a custom checker runs, under its own limits. It gets the input, the output
/// and the answer, in this order, and then the extra arguments. A built-in checker
/// is no program, and behind the last stage nothing runs.
pub proof fn the_checker_runs_last(t: TestRun, j: Judge, res: Option<RunSpec>)
    requires
        t.stage == Stage::Check || t.stage == Stage::Done,
        call_ensures(TestRun::next_run, (&t, &j), res),
    ensures
        t.stage == Stage::Done || j.checker is Builtin ==> res is None,
        t.stage == Stage::Check ==> match j.checker {
            Checker::Builtin(_) => true,
            Checker::Custom(prog) => {
                let n = prog.argv@.len() as int;
                &&& res is Some
                &&& runs_under(res->0, j.checker_limits)
                &&& uses_files(
                    res->0,
                    None,
                    t.report.checker_stdout@,
                    t.report.checker_stderr@,
                )
                &&& res->0.argv@.len() == n + 3 + j.checker_args@.len()
                &&& has_arguments(res->0, 0, prog.argv@)
                &&& res->0.argv@[n]@ == t.report.input@
                &&& res->0.argv@[n + 1]@ == t.report.candidate_output@
                &&& res->0.argv@[n + 2]@ == t.report.reference_output@
                &&& has_text_arguments(res->0, n + 3, j.checker_args@)
            },
        },
{
    if t.stage == Stage::Check {
        if let Checker::Custom(prog) = j.checker {
            let spec = res->0;
            let none = Seq::<Seq<u8>>::empty();
            let n = prog.argv@.len() as int;
            let r = t.report;
            let back = seq![r.input@, r.candidate_output@, r.reference_output@] + encoded(
                texts(j.checker_args@),
            );
            assert(blobs(spec.argv@) =~= none + blobs(prog.argv@) + back);
            lemma_arguments(spec, none, prog.argv@, back);
            assert(back[0] == r.input@ && back[1] == r.candidate_output@ && back[2]
                == r.reference_output@);
            assert forall|k: int| 0 <= k < j.checker_args@.len() implies spec.argv@[n + 3 + k]@
                == encode_utf8((#[trigger] j.checker_args@[k])@) by {
                assert(back[3 + k] == encode_utf8(j.checker_args@[k]@));
            }
        }
    }
}

/// The limits that a program is started with are those that its run is judged by:
/// it passes exactly when it was not stopped, took no more memory than it was given
/// and reported success.
pub proof fn programs_are_judged_by_the_limits_they_ran_under(
    p: Platform,
    t: TestRun,
    j: Judge,
    res: Option<RunSpec>,
    stats: RunStats,
    stderr: Seq<char>,
)
    requires
        call_ensures(TestRun::next_run, (&t, &j), res),
        res is Some,
    ensures
        finding_after(p, j, t.stage, (Seen::Ran { stats, stderr })).verdict == Verdict::Ac <==> {
            &&& !stats.timed_out
            &&& !stats.memory_exceeded
            &&& stats.peak_memory <= res->0.memory_limit
            &&& stats.exit == ExitKind::Code(0)
        },
{
}

/// Whether no two paths are the same.
pub open spec fn all_different(v: Seq<Seq<u8>>) -> bool {
    forall|a: int, b: int| 0 <= a < b < v.len() ==> #[trigger] v[a] != #[trigger] v[b]
}

/// A test starts afresh with its generator, in files of its own: no two of them are
/// the same, and all are in the working directory.
pub proof fn a_test_starts_with_files_of_its_own(
    j: Judge,
    p: Platform,
    seed: u64,
    workdir: &[u8],
    res: TestRun,
)
    requires
        call_ensures(Judge::run_test, (&j, p, seed, workdir), res),
    ensures
        res.stage == Stage::Generate,
        res.report.seed == seed,
        res.report.verdict == Verdict::Ac,
        res.report.message@.len() == 0,
        res.report.failed_aux is None,
        !res.report.checker_ran,
        ({
            let r = res.report;
            let files = seq![
                r.input@,
                r.candidate_output@,
                r.candidate_stderr@,
                r.reference_output@,
                r.generator_stderr@,
                r.reference_stderr@,
                r.checker_stdout@,
                r.checker_stderr@,
            ];
            let dir = front_of(p, workdir@);
            &&& all_different(files)
            &&& forall|k: int|
                0 <= k < files.len() ==> (#[trigger] files[k]).len() > dir.len() && files[k].take(
                    dir.len() as int,
                ) == dir
        }),
{
    let r = res.report;
    let dir = front_of(p, workdir@);
    let names = seq![
        "input.txt"@,
        "candidate-output.txt"@,
        "candidate-stderr.txt"@,
        "reference-output.txt"@,
        "generator-stderr.txt"@,
        "reference-stderr.txt"@,
        "checker-stdout.txt"@,
        "checker-stderr.txt"@,
    ];
    let files = seq![
        r.input@,
        r.candidate_output@,
        r.candidate_stderr@,
        r.reference_output@,
        r.generator_stderr@,
        r.reference_stderr@,
        r.checker_stdout@,
        r.checker_stderr@,
    ];
    reveal_strlit("");
    lemma_names_differ();
    assert forall|k: int| 0 <= k < files.len() implies #[trigger] files[k] == dir + encode_utf8(
        names[k],
    ) by {
        assert(names[k] == names[k]);
    }
    assert forall|a: int, b: int| 0 <= a < b < files.len() implies #[trigger] files[a]
        != #[trigger] files[b] by {
        if files[a] == files[b] {
            assert(files[a].skip(dir.len() as int) =~= encode_utf8(names[a]));
            assert(files[b].skip(dir.len() as int) =~= encode_utf8(names[b]));
            encode_utf8_decode_utf8(names[a]);
            encode_utf8_decode_utf8(names[b]);
            assert(names[a] == names[b]);
        }
    }
    assert forall|k: int| 0 <= k < files.len() implies (#[trigger] files[k]).len() > dir.len()
        && files[k].take(dir.len() as int) == dir by {
        assert(files[k] == dir + encode_utf8(names[k]));
        assert(files[k].take(dir.len() as int) =~= dir);
        assert(names[k].len() > 0);
        encode_utf8_decode_utf8(names[k]);
        if encode_utf8(names[k]).len() == 0 {
            let none = Seq::<char>::empty();
            encode_utf8_decode_utf8(none);
            assert(encode_utf8(none) =~= encode_utf8(names[k]));
            assert(names[k] == none);
        }
    }
}

proof fn lemma_names_differ()
    ensures
        ({
            let names = seq![
                "input.txt"@,
                "candidate-output.txt"@,
                "candidate-stderr.txt"@,
                "reference-output.txt"@,
                "generator-stderr.txt"@,
                "reference-stderr.txt"@,
                "checker-stdout.txt"@,
                "checker-stderr.txt"@,
            ];
            &&& forall|a: int, b: int| 0 <= a < b < names.len() ==> names[a] != names[b]
            &&& forall|a: int| 0 <= a < names.len() ==> (#[trigger] names[a]).len() > 0
        }),
{
    reveal_strlit("input.txt");
    reveal_strlit("candidate-output.txt");
    reveal_strlit("candidate-stderr.txt");
    reveal_strlit("reference-output.txt");
    reveal_strlit("generator-stderr.txt");
    reveal_strlit("reference-stderr.txt");
    reveal_strlit("checker-stdout.txt");
    reveal_strlit("checker-stderr.txt");
    let a = "input.txt"@;
    let b = "candidate-output.txt"@;
    let c = "candidate-stderr.txt"@;
    let d = "reference-output.txt"@;
    let e = "generator-stderr.txt"@;
    let f = "reference-stderr.txt"@;
    let g = "checker-stdout.txt"@;
    let h = "checker-stderr.txt"@;
    assert(a[0] == 'i' && b[0] == 'c' && c[0] == 'c' && d[0] == 'r' && e[0] == 'g' && f[0] == 'r'
        && g[0] == 'c' && h[0] == 'c');
    assert(b[10] == 'o' && c[10] == 's' && d[10] == 'o' && f[10] == 's');
    assert(b[1] == 'a' && c[1] == 'a' && g[1] == 'h' && h[1] == 'h');
    assert(g[11] == 'o' && h[11] == 'e');
    assert(g[10] == 'd' && h[10] == 'd');
}

// ---------------------------------------------------------------------------
// What follows from a run
// ---------------------------------------------------------------------------

/// Whether a program took more memory than it may: by its peak, or because that is
/// what it was killed for.
pub open spec fn took_too_much(stats: RunStats, limits: Limits) -> bool {
    stats.memory_exceeded || stats.peak_memory > limits.memory
}

/// How the end of a program is told: by its exit code or by the signal.
pub open spec fn told_end(p: Platform, exit: ExitKind) -> Seq<char> {
    match exit {
        ExitKind::Code(c) => "exited with code "@ + int_text(c as int),
        ExitKind::Signal(s) => "killed by "@ + signal_text(p, s as int),
    }
}

/// The candidate's fault is the first of these that it committed: too much time, too
/// much memory, a failing end. The message tells which, and by how much or how.
pub proof fn the_candidates_fault_is_named(
    p: Platform,
    j: Judge,
    stats: RunStats,
    stderr: Seq<char>,
)
    ensures
        ({
            let f = finding_after(p, j, Stage::RunCandidate, (Seen::Ran { stats, stderr }));
            let limits = j.candidate_limits;
            &&& f.failed_aux is None
            &&& if stats.timed_out {
                &&& f.verdict == Verdict::Tle
                &&& f.message == "time limit exceeded: "@ + time_text(stats, limits)
            } else if took_too_much(stats, limits) {
                &&& f.verdict == Verdict::Mle
                &&& f.message == "memory limit exceeded: "@ + (memory_text(
                    stats.peak_memory as nat,
                ) + " > "@ + memory_text(limits.memory as nat))
            } else if stats.exit != ExitKind::Code(0) {
                &&& f.verdict == Verdict::Re
                &&& f.message == told_end(p, stats.exit) + tail_text(stderr)
            } else {
                &&& f.verdict == Verdict::Ac
                &&& f.message.len() == 0
            }
        }),
{
    reveal_strlit("");
}

/// A trusted program that takes too much, or does not succeed, fails the test, and
/// the message starts with its name.
pub open spec fn is_failure_of(
    p: Platform,
    which: AuxProgram,
    name: Seq<char>,
    f: Finding,
    stats: RunStats,
    stderr: Seq<char>,
    limits: Limits,
) -> bool {
    &&& f.verdict == Verdict::Failed
    &&& f.failed_aux == Some(which)
    &&& if stats.timed_out {
        f.message == name + " timed out: "@ + time_text(stats, limits)
    } else if took_too_much(stats, limits) {
        f.message == name + " exceeded memory limit: "@ + (memory_text(stats.peak_memory as nat)
            + " > "@ + memory_text(limits.memory as nat))
    } else {
        f.message == name + " "@ + told_end(p, stats.exit) + tail_text(stderr)
    }
}

/// Whether a finding is that nothing is wrong.
pub open spec fn finds_nothing(f: Finding) -> bool {
    f.verdict == Verdict::Ac && f.failed_aux is None && f.message.len() == 0
}

/// A generator or a reference that takes too much, or does not succeed, fails the
/// test under its own name; otherwise nothing is wrong.
pub proof fn trusted_programs_fail_under_their_names(
    p: Platform,
    j: Judge,
    stats: RunStats,
    stderr: Seq<char>,
)
    ensures
        ({
            let seen = Seen::Ran { stats, stderr };
            let f = finding_after(p, j, Stage::Generate, seen);
            let g = finding_after(p, j, Stage::RunReference, seen);
            &&& if stats.timed_out || took_too_much(stats, j.generator_limits) || stats.exit
                != ExitKind::Code(0) {
                is_failure_of(
                    p,
                    AuxProgram::Generator,
                    "generator"@,
                    f,
                    stats,
                    stderr,
                    j.generator_limits,
                )
            } else {
                finds_nothing(f)
            }
            &&& if stats.timed_out || took_too_much(stats, j.reference_limits) || stats.exit
                != ExitKind::Code(0) {
                is_failure_of(
                    p,
                    AuxProgram::Reference,
                    "reference"@,
                    g,
                    stats,
                    stderr,
                    j.reference_limits,
                )
            } else {
                finds_nothing(g)
            }
        }),
{
    reveal_strlit("");
}

/// A custom checker accepts with exit code 0 and rejects with 1 or 2, in its own
/// words. Whatever else it does is its own failure.
pub proof fn a_custom_checker_decides_by_its_exit_code(
    p: Platform,
    j: Judge,
    stats: RunStats,
    stderr: Seq<char>,
)
    ensures
        ({
            let f = finding_after(p, j, Stage::Check, (Seen::Ran { stats, stderr }));
            let limits = j.checker_limits;
            if stats.timed_out || took_too_much(stats, limits) {
                is_failure_of(p, AuxProgram::Checker, "checker"@, f, stats, stderr, limits)
            } else if stats.exit == ExitKind::Code(0) {
                finds_nothing(f)
            } else if stats.exit == ExitKind::Code(1) || stats.exit == ExitKind::Code(2) {
                &&& f.verdict == Verdict::Wa
                &&& f.failed_aux is None
                &&& f.message == wrong_answer_text(stderr)
            } else {
                &&& f.verdict == Verdict::Failed
                &&& f.failed_aux == Some(AuxProgram::Checker)
                &&& stats.exit is Code ==> f.message == "checker "@ + told_end(p, stats.exit)
                    + tail_text(stderr)
                &&& stats.exit is Signal ==> f.message == "checker "@ + told_end(p, stats.exit)
            }
        }),
{
    reveal_strlit("");
    reveal_strlit("checker");
    reveal_strlit(" ");
    reveal_strlit("checker ");
}

/// What a built-in checker finds is a wrong answer in its words; where it finds
/// nothing, nothing is wrong.
pub proof fn a_difference_is_a_wrong_answer(p: Platform, j: Judge, difference: Option<Seq<char>>)
    ensures
        ({
            let f = finding_after(p, j, Stage::Check, Seen::Compared(difference));
            match difference {
                Some(msg) => f.verdict == Verdict::Wa && f.failed_aux is None && f.message == msg,
                None => finds_nothing(f),
            }
        }),
{
    reveal_strlit("");
}

/// A test goes on from the generator to the candidate, the reference and the check
/// as long as nothing is wrong, and ends with the first thing that is.
pub proof fn a_test_goes_on_as_long_as_nothing_is_wrong(f: Finding)
    ensures
        f.verdict != Verdict::Ac ==> forall|stage: Stage| #[trigger]
            stage_after(stage, f) == Stage::Done,
        f.verdict == Verdict::Ac ==> {
            &&& stage_after(Stage::Generate, f) == Stage::RunCandidate
            &&& stage_after(Stage::RunCandidate, f) == Stage::RunReference
            &&& stage_after(Stage::RunReference, f) == Stage::Check
            &&& stage_after(Stage::Check, f) == Stage::Done
        },
{
}

/// A program that kept its limits and reported success.
pub open spec fn did_well(seen: Seen, limits: Limits) -> bool {
    &&& seen is Ran
    &&& !seen->stats.timed_out
    &&& !took_too_much(seen->stats, limits)
    &&& seen->stats.exit == ExitKind::Code(0)
}

/// A test that is over is accepted exactly when the generator, the candidate and the
/// reference did well, each by its own limits, and the checker found nothing.
pub proof fn a_test_is_accepted_when_everything_went_well(p: Platform, j: Judge, seen: Seq<Seen>)
    requires
        is_over(p, j, seen),
    ensures
        known(p, j, seen).verdict == Verdict::Ac <==> {
            &&& seen.len() == 4
            &&& did_well(seen[0], j.generator_limits)
            &&& did_well(seen[1], j.candidate_limits)
            &&& did_well(seen[2], j.reference_limits)
            &&& seen[3] == Seen::Compared(None) || did_well(seen[3], j.checker_limits)
        },
{
    accepted_tests_passed_every_stage(p, j, seen);
}

/// The backstop is twice the limit and ten seconds, as far as spans go.
pub proof fn the_backstop_leaves_room(
    time: crate::duration::Duration,
    res: crate::duration::Duration,
)
    requires
        call_ensures(backstop, (time,), res),
    ensures
        2 * time@ + 10_000_000_000 <= max_nanos() ==> res@ == 2 * time@ + 10_000_000_000,
        2 * time@ + 10_000_000_000 > max_nanos() ==> res@ == max_nanos(),
{
}

// ---------------------------------------------------------------------------
// What a program said
// ---------------------------------------------------------------------------

/// Of what a program wrote to standard error the last lines are told, four at most
/// and in their order; where it wrote nothing but white space, nothing is told.
pub proof fn the_last_lines_are_told(stderr: &str, t: Seq<char>, blanks: Seq<char>, res: String)
    requires
        is_all_white(blanks),
        t.len() > 0 ==> !is_white(t.last()),
        stderr@ == t + blanks,
        call_ensures(stderr_tail, (stderr,), res),
    ensures
        tail_text(stderr@) == res@,
        t.len() == 0 ==> res@.len() == 0,
        t.len() > 0 && lines_of(t).len() <= 4 ==> res@ == "\n  stderr: "@ + joined(
            lines_of(t),
            " | "@,
        ),
        t.len() > 0 && lines_of(t).len() > 4 ==> res@ == "\n  stderr: "@ + joined(
            lines_of(t).skip(lines_of(t).len() - 4),
            " | "@,
        ),
{
    reveal_strlit("");
    trimming_takes_away_the_blank_ends(blanks, t, blanks);
    assert(lines_of(t).skip(0) =~= lines_of(t));
}

/// A custom checker's own words are told without the white space around them, the
/// first 400 characters of them.
pub proof fn a_checkers_words_are_told(a: Seq<char>, t: Seq<char>, b: Seq<char>)
    requires
        is_all_white(a),
        is_all_white(b),
        has_dense_ends(t),
    ensures
        t.len() == 0 ==> wrong_answer_text(a + t + b) == "wrong answer"@,
        0 < t.len() <= 400 ==> wrong_answer_text(a + t + b) == "wrong answer: "@ + t,
        t.len() > 400 ==> wrong_answer_text(a + t + b) == "wrong answer: "@ + t.take(400),
{
    trimming_takes_away_the_blank_ends(a, t, b);
}

// ---------------------------------------------------------------------------
// Taking in what came of a stage
// ---------------------------------------------------------------------------

/// Whether two reports are of the same seed and the same files.
pub open spec fn are_of_one_test(a: TestReport, b: TestReport) -> bool {
    &&& a.seed == b.seed
    &&& a.input@ == b.input@
    &&& a.candidate_output@ == b.candidate_output@
    &&& a.candidate_stderr@ == b.candidate_stderr@
    &&& a.reference_output@ == b.reference_output@
    &&& a.generator_stderr@ == b.generator_stderr@
    &&& a.reference_stderr@ == b.reference_stderr@
    &&& a.checker_stdout@ == b.checker_stdout@
    &&& a.checker_stderr@ == b.checker_stderr@
}

/// What came of a program is taken in: the report says what follows from it, keeps
/// the files, tells the figures of the candidate's run and of no other, and notes
/// that a custom checker ran exactly when one did. The test goes on as long as
/// nothing is wrong.
pub proof fn a_run_is_taken_in(
    t: &mut TestRun,
    p: Platform,
    j: Judge,
    stats: RunStats,
    stderr: &str,
)
    requires
        old(t).stage != Stage::Done,
        call_ensures(TestRun::ran, (t, p, &j, &stats, stderr), ()),
    ensures
        ({
            let a = old(t).report;
            let b = final(t).report;
            let f = finding_after(
                p,
                j,
                old(t).stage,
                (Seen::Ran { stats, stderr: stderr@ }),
            );
            &&& are_of_one_test(a, b)
            &&& b.verdict == f.verdict
            &&& b.message@ == f.message
            &&& b.failed_aux == f.failed_aux
            &&& b.verdict != Verdict::Ac ==> final(t).stage == Stage::Done
            &&& b.verdict == Verdict::Ac ==> final(t).stage == (match old(t).stage {
                Stage::Generate => Stage::RunCandidate,
                Stage::RunCandidate => Stage::RunReference,
                Stage::RunReference => Stage::Check,
                _ => Stage::Done,
            })
            &&& old(t).stage == Stage::RunCandidate ==> b.candidate_time == stats.cpu_time
                && b.candidate_wall == stats.wall_time && b.candidate_memory == stats.peak_memory
            &&& old(t).stage != Stage::RunCandidate ==> b.candidate_time == a.candidate_time
                && b.candidate_wall == a.candidate_wall && b.candidate_memory
                == a.candidate_memory
            &&& b.checker_ran == (a.checker_ran || old(t).stage == Stage::Check)
        }),
{
}

/// What a built-in checker says is taken in: a difference makes the answer wrong, in
/// the checker's words, and without one the test is passed. Either way it is over.
pub proof fn a_comparison_is_taken_in(
    t: &mut TestRun,
    j: Judge,
    c: BuiltinChecker,
    output: &str,
    answer: &str,
    pairs: &[RealPair],
    said: Option<String>,
)
    requires
        j.checker == Checker::Builtin(c),
        call_ensures(BuiltinChecker::check, (c, output, answer, pairs), said),
        call_ensures(TestRun::compare, (t, &j, output, answer, pairs), ()),
    ensures
        final(t).stage == Stage::Done,
        are_of_one_test(old(t).report, final(t).report),
        final(t).report.failed_aux is None,
        said is None <==> final(t).report.verdict == Verdict::Ac,
        said is Some <==> final(t).report.verdict == Verdict::Wa,
        said is Some ==> final(t).report.message@ == said->0@,
        final(t).report.candidate_time == old(t).report.candidate_time,
        final(t).report.candidate_wall == old(t).report.candidate_wall,
        final(t).report.candidate_memory == old(t).report.candidate_memory,
        final(t).report.checker_ran == old(t).report.checker_ran,
{
    assert(text_if_any(said) == check_verdict(c, output@, answer@, pairs@));
}

/// What is held against a program that was out of time is told: the time by the clock
/// on the wall where it hung, and its CPU time otherwise, against the limit in whole
/// milliseconds.
pub proof fn the_time_that_counts_is_told(s: RunStats, limits: Limits, ms: nat, rest: nat)
    requires
        limits.time@ == ms * 1_000_000 + rest,
        rest < 1_000_000,
    ensures
        time_text(s, limits) == thousandths_text(
            if s.hung {
                s.wall_time@
            } else {
                s.cpu_time@
            },
        ) + "s > "@ + thousandths_text(ms * 1_000_000) + "s"@,
{
    assert((ms * 1_000_000 + rest) % 1_000_000 == rest);
}

/// The signals that programs die of have names, and any other is told by its number.
/// Windows has none.
pub proof fn signals_have_names(p: Platform, sig: i32, res: String)
    requires
        call_ensures(signal_name, (p, sig), res),
    ensures
        p == Platform::Windows ==> res@.len() == 0,
        p != Platform::Windows && sig == 4 ==> res@ == "SIGILL"@,
        p != Platform::Windows && sig == 6 ==> res@ == "SIGABRT"@,
        p != Platform::Windows && sig == 7 ==> res@ == "SIGBUS"@,
        p != Platform::Windows && sig == 8 ==> res@ == "SIGFPE"@,
        p != Platform::Windows && sig == 9 ==> res@ == "SIGKILL"@,
        p != Platform::Windows && sig == 11 ==> res@ == "SIGSEGV"@,
        p != Platform::Windows && sig == 15 ==> res@ == "SIGTERM"@,
        p != Platform::Windows && sig != 4 && sig != 6 && sig != 7 && sig != 8 && sig != 9 && sig
            != 11 && sig != 15 ==> res@ == "signal "@ + int_text(sig as int),
{
    reveal_strlit("");
}

/// What is wrong with a trusted program is told exactly when something is.
pub proof fn trusted_programs_are_held_to_their_limits(
    p: Platform,
    which: AuxProgram,
    stats: RunStats,
    stderr: &str,
    limits: Limits,
    res: Option<String>,
)
    requires
        call_ensures(aux_failure, (p, which, &stats, stderr, limits), res),
    ensures
        res is None <==> {
            &&& !stats.timed_out
            &&& !took_too_much(stats, limits)
            &&& stats.exit == ExitKind::Code(0)
        },
{
}

/// A checker is described by its name and whether it is built in.
pub proof fn checkers_are_described_by_their_names(c: Checker, name: &'static str, res: String)
    requires
        c is Builtin ==> call_ensures(BuiltinChecker::name, (c->Builtin_0,), name),
        call_ensures(Checker::describe, (&c,), res),
    ensures
        c is Builtin ==> res@ == name@ + " (builtin)"@,
        c is Custom ==> res@ == c->Custom_0.display@ + " (custom)"@,
{
}

/// Whether a report is that of a test of which nothing ran, with all its files in one
/// directory.
pub open spec fn tells_nothing(r: TestReport, seed: u64, dir: Seq<u8>) -> bool {
    &&& r.seed == seed
    &&& r.verdict == Verdict::Ac
    &&& r.candidate_time@ == 0
    &&& r.candidate_wall@ == 0
    &&& r.candidate_memory == 0
    &&& r.message@.len() == 0
    &&& r.failed_aux is None
    &&& !r.checker_ran
    &&& r.input@ == dir + encode_utf8("input.txt"@)
    &&& r.candidate_output@ == dir + encode_utf8("candidate-output.txt"@)
    &&& r.candidate_stderr@ == dir + encode_utf8("candidate-stderr.txt"@)
    &&& r.reference_output@ == dir + encode_utf8("reference-output.txt"@)
    &&& r.generator_stderr@ == dir + encode_utf8("generator-stderr.txt"@)
    &&& r.reference_stderr@ == dir + encode_utf8("reference-stderr.txt"@)
    &&& r.checker_stdout@ == dir + encode_utf8("checker-stdout.txt"@)
    &&& r.checker_stderr@ == dir + encode_utf8("checker-stderr.txt"@)
}

/// A test starts from a report that tells nothing, with each of its files in the
/// working directory under its own name.
pub proof fn a_report_starts_with_nothing(
    j: Judge,
    p: Platform,
    seed: u64,
    workdir: &[u8],
    report: TestReport,
    run: TestRun,
)
    requires
        call_ensures(TestReport::base, (p, seed, workdir), report),
        call_ensures(Judge::run_test, (&j, p, seed, workdir), run),
    ensures
        tells_nothing(report, seed, front_of(p, workdir@)),
        tells_nothing(run.report, seed, front_of(p, workdir@)),
{
    reveal_strlit("");
}

/// A failure is put down to the program that failed, and changes nothing else of a
/// report.
pub proof fn a_failure_is_put_down_to_its_program(
    r: &mut TestReport,
    which: AuxProgram,
    msg: String,
)
    requires
        call_ensures(fail_aux, (r, which, msg), ()),
    ensures
        final(r).verdict == Verdict::Failed,
        final(r).failed_aux == Some(which),
        final(r).message@ == msg@,
        final(r).seed == old(r).seed,
        final(r).candidate_time@ == old(r).candidate_time@,
        final(r).candidate_wall@ == old(r).candidate_wall@,
        final(r).candidate_memory == old(r).candidate_memory,
        final(r).checker_ran == old(r).checker_ran,
        final(r).input@ == old(r).input@,
        final(r).candidate_output@ == old(r).candidate_output@,
        final(r).candidate_stderr@ == old(r).candidate_stderr@,
        final(r).reference_output@ == old(r).reference_output@,
        final(r).generator_stderr@ == old(r).generator_stderr@,
        final(r).reference_stderr@ == old(r).reference_stderr@,
        final(r).checker_stdout@ == old(r).checker_stdout@,
        final(r).checker_stderr@ == old(r).checker_stderr@,
{
}

} // verus!
