use stress_tester::checker::BuiltinChecker;
use stress_tester::duration::{over, Duration};
use stress_tester::judge::{
    aux_failure, backstop, signal_name, stderr_tail, AuxProgram, Checker, Judge, Limits, Stage,
    TestRun, Verdict,
};
use stress_tester::lang::Program;
use stress_tester::path::Platform;
use stress_tester::runner::{ExitKind, RunStats};

const LINUX: Platform = Platform::Linux;

fn program(name: &str) -> Program {
    Program { argv: vec![name.as_bytes().to_vec()], display: name.to_owned() }
}

fn limits(ms: u64, memory: u64) -> Limits {
    Limits { time: Duration::from_millis(ms), memory }
}

fn judge(checker: Checker) -> Judge {
    Judge {
        candidate: program("./cand"),
        reference: Program { argv: vec![b"python3".to_vec(), b"ref.py".to_vec()], display: "ref.py".to_owned() },
        generator: program("./gen"),
        checker,
        candidate_limits: limits(1_000, 64 << 20),
        reference_limits: limits(60_000, 512 << 20),
        generator_limits: limits(50_000, 512 << 20),
        checker_limits: limits(40_000, 512 << 20),
        generator_args: vec!["10".to_owned(), "x".to_owned()],
        checker_args: vec!["-q".to_owned()],
    }
}

fn builtin() -> Judge {
    judge(Checker::Builtin(BuiltinChecker::Wcmp))
}

fn custom() -> Judge {
    judge(Checker::Custom(program("./chk")))
}

fn ended(exit: ExitKind) -> RunStats {
    RunStats {
        timed_out: false,
        hung: false,
        memory_exceeded: false,
        cpu_time: Duration::from_millis(3),
        wall_time: Duration::from_millis(4),
        peak_memory: 2 << 20,
        exit,
    }
}

fn fine() -> RunStats {
    ended(ExitKind::Code(0))
}

fn strs(v: &[Vec<u8>]) -> Vec<String> {
    v.iter().map(|b| String::from_utf8_lossy(b).into_owned()).collect()
}

fn text(b: &Option<Vec<u8>>) -> Option<String> {
    b.as_ref().map(|b| String::from_utf8_lossy(b).into_owned())
}

/// A test whose first `n` programs behaved.
fn after(judge: &Judge, n: usize) -> TestRun {
    let mut t = judge.run_test(LINUX, 42, b"/w");
    for _ in 0..n {
        t.ran(LINUX, judge, &fine(), "");
    }
    t
}

#[test]
fn a_test_takes_its_course() {
    let j = builtin();
    let mut t = j.run_test(LINUX, 42, b"/w");
    assert_eq!(t.stage, Stage::Generate);
    assert_eq!(t.report.seed, 42);

    let spec = t.next_run(&j).unwrap();
    assert_eq!(strs(&spec.argv), ["./gen", "10", "x", "42"]);
    assert_eq!(spec.stdin_file, None);
    assert_eq!(text(&spec.stdout_file).unwrap(), "/w/input.txt");
    assert_eq!(text(&spec.stderr_file).unwrap(), "/w/generator-stderr.txt");
    assert_eq!(spec.cpu_limit.as_millis(), 50_000);
    assert_eq!(spec.wall_limit.as_millis(), 110_000);
    assert_eq!(spec.memory_limit, 512 << 20);

    t.ran(LINUX, &j, &fine(), "");
    assert_eq!(t.stage, Stage::RunCandidate);
    let spec = t.next_run(&j).unwrap();
    assert_eq!(strs(&spec.argv), ["./cand"]);
    assert_eq!(text(&spec.stdin_file).unwrap(), "/w/input.txt");
    assert_eq!(text(&spec.stdout_file).unwrap(), "/w/candidate-output.txt");
    assert_eq!(text(&spec.stderr_file).unwrap(), "/w/candidate-stderr.txt");
    assert_eq!(spec.cpu_limit.as_millis(), 1_000);

    t.ran(LINUX, &j, &fine(), "");
    assert_eq!(t.report.candidate_time.as_millis(), 3);
    assert_eq!(t.report.candidate_wall.as_millis(), 4);
    assert_eq!(t.report.candidate_memory, 2 << 20);
    let spec = t.next_run(&j).unwrap();
    assert_eq!(strs(&spec.argv), ["python3", "ref.py"]);
    assert_eq!(text(&spec.stdin_file).unwrap(), "/w/input.txt");
    assert_eq!(text(&spec.stdout_file).unwrap(), "/w/reference-output.txt");
    assert_eq!(text(&spec.stderr_file).unwrap(), "/w/reference-stderr.txt");

    t.ran(LINUX, &j, &fine(), "");
    assert_eq!(t.stage, Stage::Check);
    assert!(t.next_run(&j).is_none());
    t.compare(&j, "1 2\n", "1  2", &[]);
    assert_eq!(t.stage, Stage::Done);
    assert_eq!(t.report.verdict, Verdict::Ac);
    assert_eq!(t.report.message, "");
    assert!(t.next_run(&j).is_none());
    assert!(!t.report.checker_ran);
}

#[test]
fn a_builtin_checker_finds_a_difference() {
    let j = builtin();
    let mut t = after(&j, 3);
    t.compare(&j, "18", "20", &[]);
    assert_eq!(t.report.verdict, Verdict::Wa);
    assert_eq!(t.report.message, "token 1 differs: expected \"20\", found \"18\"");
    assert_eq!(t.report.failed_aux, None);
}

#[test]
fn a_custom_checker_gets_the_three_files() {
    let j = custom();
    let t = after(&j, 3);
    let spec = t.next_run(&j).unwrap();
    assert_eq!(
        strs(&spec.argv),
        ["./chk", "/w/input.txt", "/w/candidate-output.txt", "/w/reference-output.txt", "-q"]
    );
    assert_eq!(spec.stdin_file, None);
    assert_eq!(text(&spec.stdout_file).unwrap(), "/w/checker-stdout.txt");
    assert_eq!(text(&spec.stderr_file).unwrap(), "/w/checker-stderr.txt");
    assert_eq!(spec.cpu_limit.as_millis(), 40_000);
}

#[test]
fn a_custom_checker_decides() {
    let j = custom();
    let outcome = |stats: RunStats, stderr: &str| {
        let mut t = after(&j, 3);
        t.ran(LINUX, &j, &stats, stderr);
        assert_eq!(t.stage, Stage::Done);
        assert!(t.report.checker_ran);
        (t.report.verdict, t.report.message, t.report.failed_aux)
    };
    let aux = Some(AuxProgram::Checker);
    assert_eq!(outcome(fine(), "ok"), (Verdict::Ac, String::new(), None));
    for code in [1, 2] {
        assert_eq!(
            outcome(ended(ExitKind::Code(code)), " wrong output\n"),
            (Verdict::Wa, "wrong answer: wrong output".to_owned(), None)
        );
    }
    assert_eq!(
        outcome(ended(ExitKind::Code(1)), " \n"),
        (Verdict::Wa, "wrong answer".to_owned(), None)
    );
    let long = "é".repeat(500);
    assert_eq!(
        outcome(ended(ExitKind::Code(1)), &long).1,
        format!("wrong answer: {}", "é".repeat(400))
    );
    assert_eq!(
        outcome(ended(ExitKind::Code(3)), "FAIL\n"),
        (Verdict::Failed, "checker exited with code 3\n  stderr: FAIL".to_owned(), aux)
    );
    assert_eq!(
        outcome(ended(ExitKind::Signal(11)), "x"),
        (Verdict::Failed, "checker killed by SIGSEGV".to_owned(), aux)
    );
    let slow = RunStats { timed_out: true, cpu_time: Duration::from_millis(40_001), ..fine() };
    assert_eq!(
        outcome(slow, ""),
        (Verdict::Failed, "checker timed out: 40.001s > 40.000s".to_owned(), aux)
    );
    let big = RunStats { memory_exceeded: true, peak_memory: 600 << 20, ..fine() };
    assert_eq!(
        outcome(big, ""),
        (Verdict::Failed, "checker exceeded memory limit: 600.0 MB > 512.0 MB".to_owned(), aux)
    );
}

#[test]
fn limits_are_told_in_the_milliseconds_they_are_judged_by() {
    let mut j = builtin();
    j.candidate_limits.time = Duration::new(0, 500_600_000);
    let mut t = after(&j, 1);
    let spent = Duration::new(0, 501_200_000);
    assert!(over(spent, j.candidate_limits.time));
    t.ran(LINUX, &j, &RunStats { timed_out: true, cpu_time: spent, ..fine() }, "");
    assert_eq!(t.report.message, "time limit exceeded: 0.501s > 0.500s");
}

#[test]
fn the_candidate_is_judged() {
    let j = builtin();
    let outcome = |stats: RunStats, stderr: &str| {
        let mut t = after(&j, 1);
        t.ran(LINUX, &j, &stats, stderr);
        assert_eq!(t.stage, Stage::Done);
        assert_eq!(t.report.failed_aux, None);
        assert_eq!(t.report.candidate_memory, stats.peak_memory);
        (t.report.verdict, t.report.message)
    };
    let slow = RunStats { timed_out: true, cpu_time: Duration::from_millis(1_203), ..fine() };
    assert_eq!(
        outcome(slow, ""),
        (Verdict::Tle, "time limit exceeded: 1.203s > 1.000s".to_owned())
    );
    let hung = RunStats {
        timed_out: true,
        hung: true,
        wall_time: Duration::from_millis(12_002),
        ..fine()
    };
    assert_eq!(
        outcome(hung, ""),
        (Verdict::Tle, "time limit exceeded: 12.002s > 1.000s".to_owned())
    );
    let big = RunStats { peak_memory: (64 << 20) + 1, ..fine() };
    assert_eq!(
        outcome(big, ""),
        (Verdict::Mle, "memory limit exceeded: 64.0 MB > 64.0 MB".to_owned())
    );
    assert_eq!(
        outcome(ended(ExitKind::Code(-1)), "a\nb\n"),
        (Verdict::Re, "exited with code -1\n  stderr: a | b".to_owned())
    );
    assert_eq!(
        outcome(ended(ExitKind::Signal(6)), ""),
        (Verdict::Re, "killed by SIGABRT".to_owned())
    );
    // Time counts before memory, and memory before the exit.
    let worst = RunStats { timed_out: true, memory_exceeded: true, ..ended(ExitKind::Signal(9)) };
    assert_eq!(outcome(worst, "").0, Verdict::Tle);
    let worse = RunStats { memory_exceeded: true, ..ended(ExitKind::Signal(9)) };
    assert_eq!(outcome(worse, "").0, Verdict::Mle);
}

#[test]
fn trusted_programs_fail_the_test() {
    let j = builtin();
    for (n, which, name) in
        [(0, AuxProgram::Generator, "generator"), (2, AuxProgram::Reference, "reference")]
    {
        let mut t = after(&j, n);
        t.ran(LINUX, &j, &ended(ExitKind::Code(7)), "boom\n");
        assert_eq!(t.stage, Stage::Done);
        assert_eq!(t.report.verdict, Verdict::Failed);
        assert_eq!(t.report.failed_aux, Some(which));
        assert_eq!(t.report.message, format!("{name} exited with code 7\n  stderr: boom"));
        assert_eq!(which.name(), name);
    }
    assert_eq!(AuxProgram::Checker.name(), "checker");
    let l = limits(2_000, 1 << 20);
    assert_eq!(aux_failure(LINUX, AuxProgram::Generator, &fine(), "noise", limits(1, 2 << 20)), None);
    assert_eq!(
        aux_failure(LINUX, AuxProgram::Reference, &fine(), "", l).unwrap(),
        "reference exceeded memory limit: 2.0 MB > 1.0 MB"
    );
    let wall_time = Duration::from_millis(14_003);
    let hung = RunStats { timed_out: true, hung: true, wall_time, ..fine() };
    assert_eq!(
        aux_failure(LINUX, AuxProgram::Generator, &hung, "", l).unwrap(),
        "generator timed out: 14.003s > 2.000s"
    );
    assert_eq!(
        aux_failure(LINUX, AuxProgram::Generator, &ended(ExitKind::Signal(15)), "x", limits(1, 2 << 20))
            .unwrap(),
        "generator killed by SIGTERM\n  stderr: x"
    );
}

#[test]
fn the_tail_of_standard_error() {
    assert_eq!(stderr_tail(""), "");
    assert_eq!(stderr_tail(" \n\n"), "");
    assert_eq!(stderr_tail("one\n"), "\n  stderr: one");
    assert_eq!(stderr_tail("1\n2\n3\n4\n5\n6\n\n"), "\n  stderr: 3 | 4 | 5 | 6");
    assert_eq!(stderr_tail("a\r\nb"), "\n  stderr: a | b");
}

#[test]
fn signals_have_names() {
    for (sig, name) in [
        (4, "SIGILL"),
        (6, "SIGABRT"),
        (7, "SIGBUS"),
        (8, "SIGFPE"),
        (9, "SIGKILL"),
        (11, "SIGSEGV"),
        (15, "SIGTERM"),
        (1, "signal 1"),
        (31, "signal 31"),
    ] {
        assert_eq!(signal_name(LINUX, sig), name);
        assert_eq!(signal_name(Platform::Unix, sig), name);
        assert_eq!(signal_name(Platform::Windows, sig), "");
    }
}

#[test]
fn checkers_are_described() {
    assert_eq!(builtin().checker.describe(), "wcmp (builtin)");
    assert_eq!(custom().checker.describe(), "./chk (custom)");
}

#[test]
fn the_backstop_follows_the_limit() {
    assert_eq!(backstop(Duration::from_millis(1_000)).as_millis(), 12_000);
    assert_eq!(backstop(Duration::zero()).as_millis(), 10_000);
    assert!(backstop(Duration::max()).reaches(Duration::max()));
}

#[test]
fn the_same_seed_asks_for_the_same_arguments() {
    let j = builtin();
    let a = j.run_test(LINUX, 7, b"/w0").next_run(&j).unwrap();
    let b = j.run_test(LINUX, 7, b"/w1").next_run(&j).unwrap();
    assert_eq!(a.argv, b.argv);
    assert_eq!(a.argv.last().unwrap(), b"7");
}
