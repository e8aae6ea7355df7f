//! A whole run: whether its options make sense, which seeds are tested, what
//! the results add up to, and what is saved of a failing test.

use vstd::prelude::*;
use vstd::string::*;
use vstd::utf8::*;

use crate::checker::{builtin_by_name, builtin_names, checker_name, BuiltinChecker};
use crate::judge::{Checker, TestReport, Verdict};
use crate::lang::{join_text, lemma_ascii_component, Program};
use crate::path::{bytes_of, path_in, Platform};
use crate::text::{join_from, joined, texts, tokens, words};

verus! {

// ---------------------------------------------------------------------------
// Options
// ---------------------------------------------------------------------------

/// What is checked of the options before anything is done.
pub struct Settings<'a> {
    /// A custom checker is given.
    pub custom_checker: bool,
    /// The name of a built-in checker.
    pub check: Option<&'a str>,
    pub checker_args: bool,
    pub checker_flags: bool,
    pub jobs: usize,
    /// None of the four time limits is zero or less.
    pub positive_times: bool,
    /// The four memory limits, in megabytes.
    pub memory_limit: u64,
    pub gen_memory_limit: u64,
    pub ref_memory_limit: u64,
    pub checker_memory_limit: u64,
    pub max_tests: Option<u64>,
}

/// Why options do not make sense.
#[derive(Debug, Clone, Copy, PartialEq, Eq, Structural)]
pub enum SettingsError {
    TwoCheckers,
    UnknownChecker,
    CheckerOptions,
    NoJobs,
    TimeLimit,
    MemoryLimit,
    NoTests,
}

/// Whether a name is that of a built-in checker.
pub open spec fn names_a_checker(name: Seq<char>) -> bool {
    exists|c: BuiltinChecker| name == #[trigger] checker_name(c)
}

/// The first thing that is wrong with the options.
pub open spec fn settings_problem(s: Settings) -> Option<SettingsError> {
    if s.custom_checker && s.check is Some {
        Some(SettingsError::TwoCheckers)
    } else if s.check is Some && !names_a_checker(s.check->0@) {
        Some(SettingsError::UnknownChecker)
    } else if !s.custom_checker && (s.checker_args || s.checker_flags) {
        Some(SettingsError::CheckerOptions)
    } else if s.jobs == 0 {
        Some(SettingsError::NoJobs)
    } else if !s.positive_times {
        Some(SettingsError::TimeLimit)
    } else if s.memory_limit == 0 || s.gen_memory_limit == 0 || s.ref_memory_limit == 0
        || s.checker_memory_limit == 0 {
        Some(SettingsError::MemoryLimit)
    } else if s.max_tests == Some(0u64) {
        Some(SettingsError::NoTests)
    } else {
        None
    }
}

/// Checks the options.
pub fn validate(s: &Settings) -> (res: Result<(), SettingsError>)
    ensures
        match res {
            Ok(_) => settings_problem(*s) is None,
            Err(e) => settings_problem(*s) == Some(e),
        },
{
    if s.custom_checker && s.check.is_some() {
        return Err(SettingsError::TwoCheckers);
    }
    if let Some(name) = s.check {
        match builtin_by_name(name) {
            Some(c) => {
                assert(name@ == checker_name(c));
            },
            None => {
                assert(!names_a_checker(name@));
                return Err(SettingsError::UnknownChecker);
            },
        }
    }
    if !s.custom_checker && (s.checker_args || s.checker_flags) {
        return Err(SettingsError::CheckerOptions);
    }
    if s.jobs == 0 {
        return Err(SettingsError::NoJobs);
    }
    if !s.positive_times {
        return Err(SettingsError::TimeLimit);
    }
    if s.memory_limit == 0 || s.gen_memory_limit == 0 || s.ref_memory_limit == 0
        || s.checker_memory_limit == 0 {
        return Err(SettingsError::MemoryLimit);
    }
    if let Some(n) = s.max_tests {
        if n == 0 {
            return Err(SettingsError::NoTests);
        }
    }
    Ok(())
}

/// What the user is told. `name` is the name of the built-in checker that was
/// asked for.
pub open spec fn settings_text(e: SettingsError, name: Seq<char>) -> Seq<char> {
    match e {
        SettingsError::TwoCheckers => "--checker and --check are mutually exclusive"@,
        SettingsError::UnknownChecker => "unknown builtin checker `"@ + name + "` (available: "@
            + joined(builtin_names(), ", "@) + ")"@,
        SettingsError::CheckerOptions => "--checker-args/--checker-flags require -k/--checker"@,
        SettingsError::NoJobs => "--jobs must be at least 1"@,
        SettingsError::TimeLimit => "time limits must be positive"@,
        SettingsError::MemoryLimit => "memory limits must be at least 1 MB"@,
        SettingsError::NoTests => "--max-tests must be at least 1"@,
    }
}

fn names_of_checkers() -> (res: Vec<String>)
    ensures
        texts(res@) == builtin_names(),
{
    let mut v: Vec<String> = Vec::new();
    v.push("wcmp".to_owned());
    v.push("lcmp".to_owned());
    v.push("ncmp".to_owned());
    v.push("rcmp4".to_owned());
    v.push("rcmp6".to_owned());
    v.push("rcmp9".to_owned());
    v.push("nyesno".to_owned());
    assert(texts(v@) =~= builtin_names());
    v
}

impl SettingsError {
    /// What the user is told.
    pub fn message(self, name: &str) -> (res: String)
        ensures
            res@ == settings_text(self, name@),
    {
        match self {
            SettingsError::TwoCheckers => {
                "--checker and --check are mutually exclusive".to_owned()
            },
            SettingsError::UnknownChecker => {
                let mut res = "unknown builtin checker `".to_owned();
                res.append(name);
                res.append("` (available: ");
                let names = names_of_checkers();
                let list = join_from(&names, 0, ", ");
                assert(texts(names@).skip(0) =~= builtin_names());
                res.append(list.as_str());
                res.append(")");
                res
            },
            SettingsError::CheckerOptions => {
                "--checker-args/--checker-flags require -k/--checker".to_owned()
            },
            SettingsError::NoJobs => "--jobs must be at least 1".to_owned(),
            SettingsError::TimeLimit => "time limits must be positive".to_owned(),
            SettingsError::MemoryLimit => "memory limits must be at least 1 MB".to_owned(),
            SettingsError::NoTests => "--max-tests must be at least 1".to_owned(),
        }
    }
}

/// The checker of a run: the custom one, the built-in one of that name, or,
/// where neither is given, the one that compares tokens. There is none of an
/// unknown name.
pub fn choose_checker(custom: Option<Program>, check: Option<&str>) -> (res: Option<Checker>)
    ensures
        match custom {
            Some(prog) => res == Some(Checker::Custom(prog)),
            None => match check {
                Some(name) => match res {
                    Some(Checker::Builtin(c)) => name@ == checker_name(c),
                    Some(Checker::Custom(_)) => false,
                    None => !names_a_checker(name@),
                },
                None => res == Some(Checker::Builtin(BuiltinChecker::Wcmp)),
            },
        },
{
    match custom {
        Some(prog) => Some(Checker::Custom(prog)),
        None => match check {
            Some(name) => match builtin_by_name(name) {
                Some(c) => Some(Checker::Builtin(c)),
                None => None,
            },
            None => Some(Checker::Builtin(BuiltinChecker::Wcmp)),
        },
    }
}

/// Valid options always determine a checker.
pub proof fn valid_settings_name_a_checker(s: Settings)
    requires
        settings_problem(s) is None,
        !s.custom_checker,
    ensures
        s.check is None || names_a_checker(s.check->0@),
{
}

/// Megabytes in bytes.
pub fn megabytes(mb: u64) -> (res: u64)
    requires
        mb * 1024 * 1024 <= u64::MAX,
    ensures
        res == mb * 1024 * 1024,
{
    mb * 1024 * 1024
}

/// Extra arguments: the words of a text.
pub fn split_args(s: Option<&str>) -> (res: Vec<String>)
    ensures
        texts(res@) == (match s {
            Some(text) => words(text@),
            None => seq![],
        }),
{
    match s {
        Some(text) => tokens(text),
        None => {
            let none: Vec<String> = Vec::new();
            assert(texts(none@) =~= seq![]);
            none
        },
    }
}

// ---------------------------------------------------------------------------
// Seeds
// ---------------------------------------------------------------------------

/// Whether a seed belongs to a run that starts with `start` and has at most
/// `max` tests.
pub open spec fn in_run(start: int, max: Option<u64>, seed: int) -> bool {
    max is None || seed < start + max->0
}

/// Whether a seed belongs to a run that starts with `start` and has at most
/// `max` tests.
pub fn seed_wanted(start: u64, max: Option<u64>, seed: u64) -> (res: bool)
    requires
        max is Some ==> start + max->0 <= u64::MAX,
    ensures
        res == in_run(start as int, max, seed as int),
{
    match max {
        Some(n) => seed < start + n,
        None => true,
    }
}

/// Seeds start at the first one and increase by one: the `n`th test of a run
/// has the seed `start + n`, and there are as many tests as were asked for.
pub proof fn a_run_has_as_many_tests_as_asked_for(start: int, max: u64, n: int)
    requires
        0 <= n,
    ensures
        in_run(start, Some(max), start + n) <==> n < max,
        in_run(start, None, start + n),
{
}

// ---------------------------------------------------------------------------
// Results
// ---------------------------------------------------------------------------

/// What the results so far add up to.
pub struct Tally {
    pub passed: u64,
    /// The first test that failed.
    pub failure: Option<TestReport>,
    /// The first error of the harness itself.
    pub harness_error: Option<String>,
    /// The run is to end.
    pub stopped: bool,
}

/// Nothing was tested yet.
pub open spec fn no_results() -> Tally {
    Tally { passed: 0, failure: None, harness_error: None, stopped: false }
}

/// What the results add up to with one more.
pub open spec fn tallied(t: Tally, result: Result<TestReport, String>) -> Tally {
    match result {
        Ok(r) => if r.verdict == Verdict::Ac {
            Tally { passed: (t.passed + 1) as u64, ..t }
        } else {
            Tally {
                failure: if t.failure is None {
                    Some(r)
                } else {
                    t.failure
                },
                stopped: true,
                ..t
            }
        },
        Err(e) => Tally {
            harness_error: if t.harness_error is None {
                Some(e)
            } else {
                t.harness_error
            },
            stopped: true,
            ..t
        },
    }
}

/// How a run ended, by its exit code.
pub open spec fn code_of(t: Tally, stop: bool) -> int {
    if t.harness_error is Some {
        2
    } else if t.failure is Some {
        if t.failure->0.verdict == Verdict::Failed {
            2
        } else {
            1
        }
    } else if stop {
        130
    } else {
        0
    }
}

impl Tally {
    /// Nothing was tested yet.
    pub fn new() -> (res: Self)
        ensures
            res == no_results(),
    {
        Tally { passed: 0, failure: None, harness_error: None, stopped: false }
    }

    /// Takes in one more result: the report of a test, or an error of the
    /// harness.
    pub fn take(&mut self, result: Result<TestReport, String>)
        requires
            old(self).passed < u64::MAX,
        ensures
            *final(self) == tallied(*old(self), result),
    {
        match result {
            Ok(r) => if r.verdict == Verdict::Ac {
                self.passed = self.passed + 1;
            } else {
                if self.failure.is_none() {
                    self.failure = Some(r);
                }
                self.stopped = true;
            },
            Err(e) => {
                if self.harness_error.is_none() {
                    self.harness_error = Some(e);
                }
                self.stopped = true;
            },
        }
    }

    /// Whether the run was stopped from outside, `stop` being whether it was
    /// told to end at all.
    pub fn interrupted(&self, stop: bool) -> (res: bool)
        ensures
            res == (stop && self.failure is None && self.harness_error is None),
    {
        stop && self.failure.is_none() && self.harness_error.is_none()
    }

    /// The exit code of the run.
    pub fn exit_code(&self, stop: bool) -> (res: i32)
        ensures
            res == code_of(*self, stop),
    {
        if self.harness_error.is_some() {
            return 2;
        }
        match &self.failure {
            Some(r) => if r.verdict == Verdict::Failed {
                2
            } else {
                1
            },
            None => if stop {
                130
            } else {
                0
            },
        }
    }
}

/// What a series of results adds up to.
pub open spec fn tally_of(results: Seq<Result<TestReport, String>>) -> Tally
    decreases results.len(),
{
    if results.len() == 0 {
        no_results()
    } else {
        tallied(tally_of(results.drop_last()), results.last())
    }
}

/// A test that did not pass.
pub open spec fn is_failure(result: Result<TestReport, String>) -> bool {
    match result {
        Ok(r) => r.verdict != Verdict::Ac,
        Err(_) => false,
    }
}

/// A test that passed.
pub open spec fn is_pass(result: Result<TestReport, String>) -> bool {
    match result {
        Ok(r) => r.verdict == Verdict::Ac,
        Err(_) => false,
    }
}

/// Whether a result ends the run.
pub fn ends_run(result: &Result<TestReport, String>) -> (res: bool)
    ensures
        res == !is_pass(*result),
{
    match result {
        Ok(r) => r.verdict != Verdict::Ac,
        Err(_) => true,
    }
}

/// How many tests passed.
pub open spec fn passes(results: Seq<Result<TestReport, String>>) -> nat
    decreases results.len(),
{
    if results.len() == 0 {
        0
    } else if is_pass(results.last()) {
        passes(results.drop_last()) + 1
    } else {
        passes(results.drop_last())
    }
}

/// The run goes on exactly as long as every test passes, and all of them are
/// counted.
pub proof fn the_first_failing_test_stops_the_run(results: Seq<Result<TestReport, String>>)
    requires
        results.len() <= u64::MAX,
    ensures
        tally_of(results).stopped <==> exists|i: int|
            0 <= i < results.len() && !is_pass(#[trigger] results[i]),
        tally_of(results).passed == passes(results),
        passes(results) <= results.len(),
    decreases results.len(),
{
    if results.len() > 0 {
        let before = results.drop_last();
        the_first_failing_test_stops_the_run(before);
        let last = results.len() - 1;
        assert(results[last] == results.last());
        if tally_of(before).stopped {
            let i = choose|i: int| 0 <= i < before.len() && !is_pass(#[trigger] before[i]);
            assert(results[i] == before[i]);
        }
        if exists|i: int| 0 <= i < results.len() && !is_pass(#[trigger] results[i]) {
            let i = choose|i: int| 0 <= i < results.len() && !is_pass(#[trigger] results[i]);
            if i < last {
                assert(before[i] == results[i]);
            }
        }
    }
}

/// The test that is reported is the first that failed, whatever comes after
/// it.
pub proof fn the_first_failure_is_reported(results: Seq<Result<TestReport, String>>, i: int)
    requires
        0 <= i < results.len(),
        is_failure(results[i]),
        forall|j: int| 0 <= j < i ==> !is_failure(#[trigger] results[j]),
    ensures
        tally_of(results).failure == Some(results[i]->Ok_0),
    decreases results.len(),
{
    let before = results.drop_last();
    if i < before.len() {
        assert(before[i] == results[i]);
        assert forall|j: int| 0 <= j < i implies !is_failure(#[trigger] before[j]) by {
            assert(before[j] == results[j]);
        }
        the_first_failure_is_reported(before, i);
    } else {
        assert forall|j: int| 0 <= j < before.len() implies !is_failure(#[trigger] before[j]) by {
            assert(before[j] == results[j]);
        }
        lemma_no_failure(before);
    }
}

proof fn lemma_no_failure(results: Seq<Result<TestReport, String>>)
    requires
        forall|j: int| 0 <= j < results.len() ==> !is_failure(#[trigger] results[j]),
    ensures
        tally_of(results).failure is None,
    decreases results.len(),
{
    if results.len() > 0 {
        let before = results.drop_last();
        assert forall|j: int| 0 <= j < before.len() implies !is_failure(#[trigger] before[j]) by {
            assert(before[j] == results[j]);
        }
        lemma_no_failure(before);
        assert(!is_failure(results[results.len() - 1]));
    }
}

/// What the exit codes mean: 0 that all tests passed, 1 that the candidate
/// failed one, 2 that the harness or a trusted program failed, and 130 that the
/// run was interrupted before anything had failed.
pub proof fn exit_codes_tell_how_a_run_ended(
    results: Seq<Result<TestReport, String>>,
    interrupted: bool,
)
    requires
        results.len() <= u64::MAX,
    ensures
        ({
            let t = tally_of(results);
            let code = code_of(t, t.stopped || interrupted);
            let all_passed = forall|i: int|
                0 <= i < results.len() ==> is_pass(#[trigger] results[i]);
            &&& code == 0 <==> all_passed && !interrupted
            &&& code == 130 <==> all_passed && interrupted
            &&& code == 2 <==> t.harness_error is Some || (t.failure is Some
                && t.failure->0.verdict == Verdict::Failed)
            &&& code == 1 <==> t.harness_error is None && t.failure is Some
                && t.failure->0.verdict != Verdict::Failed
        }),
{
    the_first_failing_test_stops_the_run(results);
    lemma_stopped(results);
}

/// A run that is stopped by its results has something to report.
proof fn lemma_stopped(results: Seq<Result<TestReport, String>>)
    ensures
        tally_of(results).stopped <==> tally_of(results).failure is Some || tally_of(
            results,
        ).harness_error is Some,
    decreases results.len(),
{
    if results.len() > 0 {
        lemma_stopped(results.drop_last());
    }
}

// ---------------------------------------------------------------------------
// Artifacts
// ---------------------------------------------------------------------------

/// What a saved file holds.
pub enum Content {
    /// What another file holds.
    CopyOf(Vec<u8>),
    /// What two other files hold, one behind the other.
    Both(Vec<u8>, Vec<u8>),
    /// This text.
    Text(String),
}

/// A file that is saved.
pub struct Artifact {
    pub path: Vec<u8>,
    pub content: Content,
}

/// Whether an artifact is a copy of a file.
pub open spec fn copies(a: Artifact, path: Seq<u8>, from: Seq<u8>) -> bool {
    &&& a.path@ == path
    &&& match a.content {
        Content::CopyOf(f) => f@ == from,
        _ => false,
    }
}

/// Whether an artifact is what the checker had to say of a test: all that a
/// custom checker wrote, or else the message of the verdict.
pub open spec fn logs(a: Artifact, path: Seq<u8>, r: TestReport) -> bool {
    &&& a.path@ == path
    &&& match a.content {
        Content::Both(out, err) => r.checker_ran && out@ == r.checker_stdout@ && err@
            == r.checker_stderr@,
        Content::Text(text) => !r.checker_ran && text@ == r.message@,
        Content::CopyOf(_) => false,
    }
}

/// The files that are saved of a failing test: its input, the candidate's
/// output, the reference's output and the checker's verdict.
pub fn artifacts(p: Platform, r: &TestReport, dir: &[u8]) -> (res: Vec<Artifact>)
    ensures
        res@.len() == 4,
        copies(res@[0], path_in(p, dir@, encode_utf8("data.in"@)), r.input@),
        copies(res@[1], path_in(p, dir@, encode_utf8("data.out"@)), r.candidate_output@),
        copies(res@[2], path_in(p, dir@, encode_utf8("data.ans"@)), r.reference_output@),
        logs(res@[3], path_in(p, dir@, encode_utf8("checker.log"@)), *r),
{
    proof {
        reveal_strlit("data.in");
        reveal_strlit("data.out");
        reveal_strlit("data.ans");
        reveal_strlit("checker.log");
        lemma_ascii_component(p, "data.in"@);
        lemma_ascii_component(p, "data.out"@);
        lemma_ascii_component(p, "data.ans"@);
        lemma_ascii_component(p, "checker.log"@);
    }
    let log = if r.checker_ran {
        Content::Both(bytes_of(&r.checker_stdout), bytes_of(&r.checker_stderr))
    } else {
        Content::Text(r.message.as_str().to_owned())
    };
    let mut res: Vec<Artifact> = Vec::new();
    res.push(
        Artifact {
            path: join_text(p, dir, "data.in"),
            content: Content::CopyOf(bytes_of(&r.input)),
        },
    );
    res.push(
        Artifact {
            path: join_text(p, dir, "data.out"),
            content: Content::CopyOf(bytes_of(&r.candidate_output)),
        },
    );
    res.push(
        Artifact {
            path: join_text(p, dir, "data.ans"),
            content: Content::CopyOf(bytes_of(&r.reference_output)),
        },
    );
    res.push(Artifact { path: join_text(p, dir, "checker.log"), content: log });
    res
}

} // verus!
