use similar::{ChangeTag, TextDiff};

use stress_tester::checker::BuiltinChecker;
use stress_tester::duration::Duration;
use stress_tester::judge::{AuxProgram, Limits, TestReport, Verdict};
use stress_tester::lang::{BuildResult, Language, Program};
use stress_tester::path::Platform;
use stress_tester::report::{
    banner_lines, build_line, failure_lines, fits_in_diff, render_diff, show_changes,
    summary_lines, test_line, verdict_badge, Banner, Change, Side, Span, Style,
};
use stress_tester::session::{
    artifacts, choose_checker, ends_run, megabytes, seed_wanted, split_args, validate, Content, Settings,
    SettingsError, Tally,
};

fn flat(line: &[Span]) -> String {
    line.iter().map(|s| s.text.as_str()).collect()
}

fn all(lines: &[Vec<Span>]) -> Vec<String> {
    lines.iter().map(|l| flat(l)).collect()
}

fn report(seed: u64, verdict: Verdict) -> TestReport {
    let mut r = TestReport::base(Platform::Linux, seed, b"/w");
    r.verdict = verdict;
    r.candidate_time = Duration::from_millis(3);
    r.candidate_wall = Duration::from_millis(4);
    r.candidate_memory = 2_202_010;
    r
}

const LIMIT: u64 = 512 << 20;

fn limits() -> Limits {
    Limits { time: Duration::from_millis(1_000), memory: LIMIT }
}

#[test]
fn badges() {
    for (v, text, style) in [
        (Verdict::Ac, "AC", Style::GreenBold),
        (Verdict::Wa, "WA", Style::RedBold),
        (Verdict::Tle, "TLE", Style::YellowBold),
        (Verdict::Mle, "MLE", Style::MagentaBold),
        (Verdict::Re, "RE", Style::RedBold),
        (Verdict::Failed, "FAILED", Style::RedBold),
    ] {
        let badge = verdict_badge(v);
        assert_eq!((badge.text.as_str(), badge.style), (text, style));
    }
}

#[test]
fn built_programs_are_listed() {
    let program = Program { argv: vec![], display: "wa.cpp".to_owned() };
    let r = BuildResult { program, language: Language::Cpp, cached: false };
    let line = build_line("candidate", &r);
    assert_eq!(flat(&line), "  ✓ candidate  wa.cpp                   (C++, compiled)");
    assert_eq!(line[1].style, Style::Green);
}

#[test]
fn the_banner_tells_everything() {
    let mut banner = Banner {
        candidate: "wa.cpp",
        candidate_lang: "C++",
        reference: "ac.cpp",
        reference_lang: "C++",
        generator: "gen.cpp",
        generator_lang: "C++",
        checker: "wcmp (builtin)",
        limits: limits(),
        time_limit: "1s",
        jobs: 4,
        start_seed: 1,
        max_tests: Some(100),
    };
    let lines = banner_lines(&banner);
    assert_eq!(
        all(&lines),
        [
            "Test Information",
            "  candidate: wa.cpp (C++)",
            "  reference: ac.cpp (C++)",
            "  generator: gen.cpp (C++)",
            "  checker:   wcmp (builtin)",
            "  limits:    TL 1s / ML 512.0 MB",
            "  metadata:  4 jobs, 100 tests, initial seed = 1",
            "",
        ]
    );
    assert_eq!(lines[0][0].style, Style::Bold);
    banner.max_tests = None;
    assert_eq!(
        all(&banner_lines(&banner))[6],
        "  metadata:  4 jobs, ∞ tests, initial seed = 1"
    );
}

#[test]
fn tests_are_listed() {
    let line = test_line(&report(1, Verdict::Ac));
    assert_eq!(flat(&line), "AC on test #1            3 ms      2.1 MB");
    assert_eq!(line[0].style, Style::GreenBold);
    assert_eq!(line[1].style, Style::Plain);
}

#[test]
fn a_failure_is_reported_with_a_diff() {
    let mut r = report(3, Verdict::Wa);
    r.message = "token 1 differs: expected \"20\", found \"18\"".to_owned();
    let diff = render_diff(&Some(b"20\n".to_vec()), &Some(b"18\n".to_vec()));
    let lines = failure_lines(&r, &limits(), "1s", diff, Some("stress-output"));
    assert_eq!(
        all(&lines),
        [
            "",
            "WA on test #3",
            "         cpu: 3 ms (limit 1s)   wall: 4 ms   memory: 2.1 MB (limit 512.0 MB)",
            "         token 1 differs: expected \"20\", found \"18\"",
            "         diff (- = expected, + = found):",
            "         - 20",
            "         + 18",
            "         saved: stress-output",
        ]
    );
    assert_eq!(lines[4][1].style, Style::Green);
    assert_eq!(lines[4][3].style, Style::Red);
    assert_eq!(lines[5][1].style, Style::Green);
    assert_eq!(lines[6][1].style, Style::Red);
}

#[test]
fn a_failed_program_is_named() {
    let mut r = report(9, Verdict::Failed);
    r.failed_aux = Some(AuxProgram::Generator);
    r.message = "generator exited with code 1".to_owned();
    let diff = render_diff(&Some(b"1".to_vec()), &Some(b"2".to_vec()));
    let lines = failure_lines(&r, &limits(), "1s", diff, None);
    assert_eq!(
        all(&lines),
        [
            "",
            "FAILED (generator) on test #9",
            "         cpu: 3 ms (limit 1s)   wall: 4 ms   memory: 2.1 MB (limit 512.0 MB)",
            "         generator exited with code 1",
        ]
    );
    r.message = String::new();
    assert_eq!(failure_lines(&r, &limits(), "1s", None, None).len(), 3);
}

#[test]
fn diffs_show_what_differs() {
    let a = "1\n2\n3\n";
    let b = "1\nx\n3";
    let lines = render_diff(&Some(a.as_bytes().to_vec()), &Some(b.as_bytes().to_vec())).unwrap();
    let mut wanted = Vec::new();
    for change in TextDiff::from_lines(a, b).iter_all_changes() {
        let prefix = match change.tag() {
            ChangeTag::Equal => ' ',
            ChangeTag::Delete => '-',
            ChangeTag::Insert => '+',
        };
        let text = format!("{change}");
        wanted.push(format!("         {prefix} {}", text.trim_end_matches('\n')));
    }
    assert_eq!(all(&lines), wanted);
    assert_eq!(all(&lines)[..3], ["           1", "         - 2", "         - 3"]);
}

#[test]
fn diffs_that_are_not_there() {
    let x = Some(b"x\n".to_vec());
    assert!(render_diff(&x, &x).is_none());
    assert!(render_diff(&None, &x).is_none());
    assert!(render_diff(&x, &None).is_none());
    // Different bytes can read the same.
    assert!(render_diff(&Some(b"\xff".to_vec()), &Some(b"\xfe".to_vec())).is_none());
    // A file that is too large is in no diff, on either side.
    let exact = Some(vec![b'a'; 1_000_000]);
    let large = Some(vec![b'a'; 1_000_001]);
    assert_eq!(render_diff(&exact, &x).unwrap().len(), 2);
    assert!(render_diff(&large, &x).is_none());
    assert!(render_diff(&x, &large).is_none());
    assert!(fits_in_diff(1_000_000));
    assert!(!fits_in_diff(1_000_001));
}

#[test]
fn long_diffs_are_cut() {
    let change = |i: usize| Change { side: Side::Found, text: format!("{i}\n\n") };
    let thirty: Vec<Change> = (0..30).map(change).collect();
    let lines = show_changes(&thirty);
    assert_eq!(lines.len(), 30);
    assert_eq!(flat(&lines[29]), "         + 29");
    let more: Vec<Change> = (0..40).map(change).collect();
    let lines = show_changes(&more);
    assert_eq!(lines.len(), 31);
    assert_eq!(flat(&lines[30]), "         ... more lines...");
    assert_eq!(lines[30][1].style, Style::Dimmed);
    let both = vec![Change { side: Side::Both, text: "same\r\n".to_owned() }];
    assert_eq!(flat(&show_changes(&both)[0]), "           same\r");
}

#[test]
fn the_summary() {
    let lines = summary_lines(100, Duration::new(2, 549_999_999), false, "39.2");
    assert_eq!(all(&lines), ["", "OK 100 test(s) passed in 2.5s (39.2 tests/s)"]);
    assert_eq!(lines[1][0].style, Style::GreenBold);
    let lines = summary_lines(7, Duration::from_millis(1_000), true, "");
    assert_eq!(all(&lines), ["", "STOP interrupted after 7 test(s), all passed so far (1.0s)"]);
    assert_eq!(lines[1][0].style, Style::YellowBold);
}

fn settings() -> Settings<'static> {
    Settings {
        custom_checker: false,
        check: None,
        checker_args: false,
        checker_flags: false,
        jobs: 1,
        positive_times: true,
        memory_limit: 512,
        gen_memory_limit: 512,
        ref_memory_limit: 512,
        checker_memory_limit: 512,
        max_tests: None,
    }
}

#[test]
fn options_are_validated() {
    assert_eq!(validate(&settings()), Ok(()));
    let both = Settings { custom_checker: true, check: Some("wcmp"), ..settings() };
    assert_eq!(validate(&both), Err(SettingsError::TwoCheckers));
    let unknown = Settings { check: Some("xcmp"), ..settings() };
    assert_eq!(validate(&unknown), Err(SettingsError::UnknownChecker));
    for (checker_args, checker_flags) in [(true, false), (false, true)] {
        let s = Settings { checker_args, checker_flags, ..settings() };
        assert_eq!(validate(&s), Err(SettingsError::CheckerOptions));
        let s = Settings { custom_checker: true, checker_args, checker_flags, ..settings() };
        assert_eq!(validate(&s), Ok(()));
    }
    let s = Settings { jobs: 0, ..settings() };
    assert_eq!(validate(&s), Err(SettingsError::NoJobs));
    let s = Settings { positive_times: false, ..settings() };
    assert_eq!(validate(&s), Err(SettingsError::TimeLimit));
    for s in [
        Settings { memory_limit: 0, ..settings() },
        Settings { gen_memory_limit: 0, ..settings() },
        Settings { ref_memory_limit: 0, ..settings() },
        Settings { checker_memory_limit: 0, ..settings() },
    ] {
        assert_eq!(validate(&s), Err(SettingsError::MemoryLimit));
    }
    let s = Settings { max_tests: Some(0), ..settings() };
    assert_eq!(validate(&s), Err(SettingsError::NoTests));
    let s = Settings { max_tests: Some(1), check: Some("nyesno"), ..settings() };
    assert_eq!(validate(&s), Ok(()));
}

#[test]
fn invalid_options_are_explained() {
    for (e, text) in [
        (SettingsError::TwoCheckers, "--checker and --check are mutually exclusive"),
        (
            SettingsError::UnknownChecker,
            "unknown builtin checker `zzz` (available: wcmp, lcmp, ncmp, rcmp4, rcmp6, rcmp9, nyesno)",
        ),
        (
            SettingsError::CheckerOptions,
            "--checker-args/--checker-flags require -k/--checker",
        ),
        (SettingsError::NoJobs, "--jobs must be at least 1"),
        (SettingsError::TimeLimit, "time limits must be positive"),
        (SettingsError::MemoryLimit, "memory limits must be at least 1 MB"),
        (SettingsError::NoTests, "--max-tests must be at least 1"),
    ] {
        assert_eq!(e.message("zzz"), text);
    }
}

#[test]
fn a_checker_is_chosen() {
    let prog = Program { argv: vec![], display: "chk".to_owned() };
    assert_eq!(choose_checker(Some(prog), None).unwrap().describe(), "chk (custom)");
    assert_eq!(choose_checker(None, None).unwrap().describe(), "wcmp (builtin)");
    assert_eq!(choose_checker(None, Some("rcmp9")).unwrap().describe(), "rcmp9 (builtin)");
    assert!(choose_checker(None, Some("rcmp5")).is_none());
    assert_eq!(BuiltinChecker::Rcmp9.name(), "rcmp9");
}

#[test]
fn arguments_and_sizes() {
    assert_eq!(split_args(Some("  -n 5\t--x ")), ["-n", "5", "--x"]);
    assert!(split_args(Some(" ")).is_empty());
    assert!(split_args(None).is_empty());
    assert_eq!(megabytes(512), 536_870_912);
}

#[test]
fn seeds_are_counted_from_the_first() {
    let wanted: Vec<u64> = (0..20).filter(|s| seed_wanted(5, Some(3), *s) && *s >= 5).collect();
    assert_eq!(wanted, [5, 6, 7]);
    assert!(seed_wanted(5, None, u64::MAX));
    assert!(seed_wanted(u64::MAX - 1, Some(1), u64::MAX - 1));
    assert!(!seed_wanted(u64::MAX - 1, Some(1), u64::MAX));
}

#[test]
fn the_first_failure_counts() {
    let mut t = Tally::new();
    t.take(Ok(report(1, Verdict::Ac)));
    t.take(Ok(report(2, Verdict::Ac)));
    assert!(!t.stopped);
    assert_eq!((t.exit_code(false), t.exit_code(true)), (0, 130));
    assert!(t.interrupted(true) && !t.interrupted(false));
    t.take(Ok(report(4, Verdict::Tle)));
    assert!(t.stopped);
    t.take(Ok(report(3, Verdict::Failed)));
    t.take(Ok(report(5, Verdict::Ac)));
    assert_eq!(t.passed, 3);
    assert_eq!(t.failure.as_ref().unwrap().seed, 4);
    assert_eq!(t.exit_code(true), 1);
    assert!(!t.interrupted(true));
    t.take(Err("first".to_owned()));
    t.take(Err("second".to_owned()));
    assert_eq!(t.harness_error.as_deref(), Some("first"));
    assert_eq!(t.exit_code(true), 2);
}

#[test]
fn only_passing_tests_go_on() {
    assert!(!ends_run(&Ok(report(1, Verdict::Ac))));
    assert!(ends_run(&Ok(report(1, Verdict::Re))));
    assert!(ends_run(&Ok(report(1, Verdict::Failed))));
    assert!(ends_run(&Err("no disk".to_owned())));
}

#[test]
fn exit_codes() {
    for (verdict, code) in [
        (Verdict::Wa, 1),
        (Verdict::Tle, 1),
        (Verdict::Mle, 1),
        (Verdict::Re, 1),
        (Verdict::Failed, 2),
    ] {
        let mut t = Tally::new();
        t.take(Ok(report(1, verdict)));
        assert_eq!(t.exit_code(t.stopped), code);
    }
}

#[test]
fn files_of_a_failing_test_are_saved() {
    let mut r = report(3, Verdict::Wa);
    r.message = "token 1 differs".to_owned();
    let files = artifacts(Platform::Linux, &r, b"stress-output");
    let paths: Vec<String> =
        files.iter().map(|a| String::from_utf8(a.path.clone()).unwrap()).collect();
    assert_eq!(
        paths,
        [
            "stress-output/data.in",
            "stress-output/data.out",
            "stress-output/data.ans",
            "stress-output/checker.log",
        ]
    );
    assert!(matches!(&files[0].content, Content::CopyOf(f) if f == b"/w/input.txt"));
    assert!(matches!(&files[1].content, Content::CopyOf(f) if f == b"/w/candidate-output.txt"));
    assert!(matches!(&files[2].content, Content::CopyOf(f) if f == b"/w/reference-output.txt"));
    assert!(matches!(&files[3].content, Content::Text(t) if t == "token 1 differs"));
    r.checker_ran = true;
    let files = artifacts(Platform::Linux, &r, b"out/");
    assert!(matches!(
        &files[3].content,
        Content::Both(a, b) if a == b"/w/checker-stdout.txt" && b == b"/w/checker-stderr.txt"
    ));
}
