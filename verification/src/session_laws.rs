//! What holds of every run: which options make sense, what is counted, how the run
//! ends and what is saved.

use vstd::prelude::*;
use vstd::string::*;
use vstd::utf8::*;

use crate::checker::{checker_name, checker_names_are_distinct, BuiltinChecker};
use crate::judge::{Checker, TestReport, Verdict};
use crate::lang::Program;
use crate::path::{front_of, Platform};
use crate::session::{
    artifacts, choose_checker, ends_run, megabytes, names_a_checker, seed_wanted, split_args,
    tally_of, validate, Artifact, Settings, SettingsError, Tally,
};
use crate::text::{joined, texts, words};
use crate::text_laws::{are_words, words_are_found_again};

verus! {

// ---------------------------------------------------------------------------
// Options
// ---------------------------------------------------------------------------

/// Whether a name is one of the seven.
pub open spec fn is_one_of_the_names(name: Seq<char>) -> bool {
    ||| name == "wcmp"@
    ||| name == "lcmp"@
    ||| name == "ncmp"@
    ||| name == "rcmp4"@
    ||| name == "rcmp6"@
    ||| name == "rcmp9"@
    ||| name == "nyesno"@
}

proof fn lemma_names(name: Seq<char>)
    ensures
        names_a_checker(name) <==> is_one_of_the_names(name),
{
    assert(checker_name(BuiltinChecker::Wcmp) == "wcmp"@);
    assert(checker_name(BuiltinChecker::Lcmp) == "lcmp"@);
    assert(checker_name(BuiltinChecker::Ncmp) == "ncmp"@);
    assert(checker_name(BuiltinChecker::Rcmp4) == "rcmp4"@);
    assert(checker_name(BuiltinChecker::Rcmp6) == "rcmp6"@);
    assert(checker_name(BuiltinChecker::Rcmp9) == "rcmp9"@);
    assert(checker_name(BuiltinChecker::Nyesno) == "nyesno"@);
}

/// Options make sense exactly when they name one checker at most, a known one, give
/// checker options to a custom checker only, and ask for at least one job, positive
/// times, at least one megabyte everywhere and at least one test.
pub proof fn options_make_sense_when_nothing_is_wrong_with_them(
    s: &Settings,
    res: Result<(), SettingsError>,
)
    requires
        call_ensures(validate, (s,), res),
    ensures
        res is Ok <==> {
            &&& !(s.custom_checker && s.check is Some)
            &&& s.check is Some ==> is_one_of_the_names(s.check->0@)
            &&& s.checker_args || s.checker_flags ==> s.custom_checker
            &&& s.jobs >= 1
            &&& s.positive_times
            &&& s.memory_limit >= 1
            &&& s.gen_memory_limit >= 1
            &&& s.ref_memory_limit >= 1
            &&& s.checker_memory_limit >= 1
            &&& s.max_tests is Some ==> s.max_tests->0 >= 1
        },
{
    if s.check is Some {
        lemma_names(s.check->0@);
    }
}

/// The error names something that is wrong, the first in this order.
pub proof fn errors_name_what_is_wrong(s: &Settings, e: SettingsError)
    requires
        call_ensures(validate, (s,), Err::<(), SettingsError>(e)),
    ensures
        ({
            let two = s.custom_checker && s.check is Some;
            let unknown = s.check is Some && !is_one_of_the_names(s.check->0@);
            let options = !s.custom_checker && (s.checker_args || s.checker_flags);
            let memory = s.memory_limit == 0 || s.gen_memory_limit == 0 || s.ref_memory_limit == 0
                || s.checker_memory_limit == 0;
            match e {
                SettingsError::TwoCheckers => two,
                SettingsError::UnknownChecker => unknown && !two,
                SettingsError::CheckerOptions => options && !unknown && !two,
                SettingsError::NoJobs => s.jobs == 0 && !options && !unknown && !two,
                SettingsError::TimeLimit => !s.positive_times && s.jobs > 0 && !options && !unknown
                    && !two,
                SettingsError::MemoryLimit => memory && s.positive_times && s.jobs > 0 && !options
                    && !unknown && !two,
                SettingsError::NoTests => s.max_tests == Some(0u64) && !memory && s.positive_times
                    && s.jobs > 0 && !options && !unknown && !two,
            }
        }),
{
    if s.check is Some {
        lemma_names(s.check->0@);
    }
}

/// The checker is the custom one where there is one, else the built-in one of the
/// name, and the one that compares tokens where no name is given.
pub proof fn a_custom_checker_wins(
    custom: Option<Program>,
    check: Option<&str>,
    res: Option<Checker>,
)
    requires
        call_ensures(choose_checker, (custom, check), res),
    ensures
        custom is Some ==> res == Some(Checker::Custom(custom->0)),
        custom is None && check is None ==> res == Some(Checker::Builtin(BuiltinChecker::Wcmp)),
        custom is None && check is Some ==> (res is Some <==> is_one_of_the_names(check->0@)),
        custom is None && check is Some && res is Some ==> res->0 is Builtin && check->0@
            == checker_name(res->0->Builtin_0),
{
    if custom is None && check is Some {
        lemma_names(check->0@);
        if let Some(Checker::Builtin(c)) = res {
            assert(check->0@ == checker_name(c));
        }
    }
}

/// Each name is that of one checker.
pub proof fn names_select_their_checkers(check: &str, c: BuiltinChecker)
    requires
        call_ensures(
            choose_checker,
            (None::<Program>, Some(check)),
            Some(Checker::Builtin(c)),
        ),
    ensures
        check@ == "wcmp"@ <==> c == BuiltinChecker::Wcmp,
        check@ == "lcmp"@ <==> c == BuiltinChecker::Lcmp,
        check@ == "ncmp"@ <==> c == BuiltinChecker::Ncmp,
        check@ == "rcmp4"@ <==> c == BuiltinChecker::Rcmp4,
        check@ == "rcmp6"@ <==> c == BuiltinChecker::Rcmp6,
        check@ == "rcmp9"@ <==> c == BuiltinChecker::Rcmp9,
        check@ == "nyesno"@ <==> c == BuiltinChecker::Nyesno,
{
    assert(check@ == checker_name(c));
    lemma_distinct(c, BuiltinChecker::Wcmp);
    lemma_distinct(c, BuiltinChecker::Lcmp);
    lemma_distinct(c, BuiltinChecker::Ncmp);
    lemma_distinct(c, BuiltinChecker::Rcmp4);
    lemma_distinct(c, BuiltinChecker::Rcmp6);
    lemma_distinct(c, BuiltinChecker::Rcmp9);
    lemma_distinct(c, BuiltinChecker::Nyesno);
}

proof fn lemma_distinct(a: BuiltinChecker, b: BuiltinChecker)
    ensures
        checker_name(a) == checker_name(b) <==> a == b,
{
    if checker_name(a) == checker_name(b) {
        checker_names_are_distinct(a, b);
    }
}

/// A megabyte is 1048576 bytes.
pub proof fn a_megabyte_is_a_mebibyte(mb: u64, res: u64)
    requires
        call_ensures(megabytes, (mb,), res),
    ensures
        res == mb * 1_048_576,
{
    assert(mb * 1024 * 1024 == mb * 1_048_576) by (nonlinear_arith);
}

/// Extra arguments are the words of their text, found again one by one; without a
/// text there are none.
pub proof fn extra_arguments_are_words(v: Seq<Seq<char>>, s: Option<&str>, res: Vec<String>)
    requires
        call_ensures(split_args, (s,), res),
    ensures
        s is Some ==> texts(res@) == words(s->0@),
        s is Some && are_words(v) && s->0@ == joined(v, seq![' ']) ==> texts(res@) == v,
        s is None ==> res@.len() == 0,
{
    if are_words(v) {
        words_are_found_again(v);
    }
    assert(texts(res@).len() == res@.len());
}

/// A run tests the seeds from the first on, as many as were asked for, or all.
pub proof fn a_run_tests_the_seeds_from_the_first_on(
    start: u64,
    max: Option<u64>,
    n: int,
    seed: u64,
    res: bool,
)
    requires
        seed == start + n,
        call_ensures(seed_wanted, (start, max, seed), res),
    ensures
        max is None ==> res,
        max is Some ==> (res <==> n < max->0),
{
}

// ---------------------------------------------------------------------------
// Results
// ---------------------------------------------------------------------------

/// A passed test is counted and changes nothing else; a failed one is kept, unless
/// one was kept before, and stops the run; and so does an error of the harness.
pub proof fn results_are_taken_in(t: &mut Tally, result: Result<TestReport, String>)
    requires
        old(t).passed < u64::MAX,
        call_ensures(Tally::take, (t, result), ()),
    ensures
        match result {
            Ok(r) => {
                &&& final(t).harness_error == old(t).harness_error
                &&& r.verdict == Verdict::Ac ==> final(t).passed == old(t).passed + 1
                    && final(t).failure == old(t).failure && final(t).stopped == old(t).stopped
                &&& r.verdict != Verdict::Ac ==> final(t).passed == old(t).passed
                    && final(t).stopped && (old(t).failure is None ==> final(t).failure == Some(r))
                    && (old(t).failure is Some ==> final(t).failure == old(t).failure)
            },
            Err(e) => {
                &&& final(t).passed == old(t).passed
                &&& final(t).failure == old(t).failure
                &&& final(t).stopped
                &&& old(t).harness_error is None ==> final(t).harness_error == Some(e)
                &&& old(t).harness_error is Some ==> final(t).harness_error == old(
                    t,
                ).harness_error
            },
        },
{
}

/// Where every test passes, all of them are counted and nothing stops the run.
pub proof fn passed_tests_are_all_counted(results: Seq<Result<TestReport, String>>)
    requires
        results.len() <= u64::MAX,
        forall|i: int|
            0 <= i < results.len() ==> (#[trigger] results[i]) is Ok && results[i]->Ok_0.verdict
                == Verdict::Ac,
    ensures
        tally_of(results).passed == results.len(),
        !tally_of(results).stopped,
        tally_of(results).failure is None,
        tally_of(results).harness_error is None,
    decreases results.len(),
{
    if results.len() > 0 {
        let before = results.drop_last();
        assert forall|i: int| 0 <= i < before.len() implies (#[trigger] before[i]) is Ok
            && before[i]->Ok_0.verdict == Verdict::Ac by {
            assert(before[i] == results[i]);
        }
        passed_tests_are_all_counted(before);
        assert(results[results.len() - 1] == results.last());
    }
}

/// The first error of the harness is the one that is told.
pub proof fn the_first_harness_error_is_told(results: Seq<Result<TestReport, String>>, i: int)
    requires
        0 <= i < results.len(),
        results[i] is Err,
        forall|j: int| 0 <= j < i ==> (#[trigger] results[j]) is Ok,
    ensures
        tally_of(results).harness_error == Some(results[i]->Err_0),
        tally_of(results).stopped,
    decreases results.len(),
{
    let before = results.drop_last();
    if i < before.len() {
        assert(before[i] == results[i]);
        assert forall|j: int| 0 <= j < i implies (#[trigger] before[j]) is Ok by {
            assert(before[j] == results[j]);
        }
        the_first_harness_error_is_told(before, i);
    } else {
        assert forall|j: int| 0 <= j < before.len() implies (#[trigger] before[j]) is Ok by {
            assert(before[j] == results[j]);
        }
        lemma_no_error(before);
    }
}

proof fn lemma_no_error(results: Seq<Result<TestReport, String>>)
    requires
        forall|j: int| 0 <= j < results.len() ==> (#[trigger] results[j]) is Ok,
    ensures
        tally_of(results).harness_error is None,
    decreases results.len(),
{
    if results.len() > 0 {
        let before = results.drop_last();
        assert forall|j: int| 0 <= j < before.len() implies (#[trigger] before[j]) is Ok by {
            assert(before[j] == results[j]);
        }
        lemma_no_error(before);
        assert(results[results.len() - 1] is Ok);
    }
}

/// The exit code: 2 for an error of the harness or a trusted program's failure, 1 for
/// a failure of the candidate, 130 for a run that was stopped without any of these,
/// and 0 otherwise. A run counts as interrupted in the third of these cases.
pub proof fn exit_codes_are_these(t: Tally, stop: bool, code: i32, interrupted: bool)
    requires
        call_ensures(Tally::exit_code, (&t, stop), code),
        call_ensures(Tally::interrupted, (&t, stop), interrupted),
    ensures
        t.harness_error is Some ==> code == 2,
        t.harness_error is None && t.failure is Some && t.failure->0.verdict == Verdict::Failed
            ==> code == 2,
        t.harness_error is None && t.failure is Some && t.failure->0.verdict != Verdict::Failed
            ==> code == 1,
        t.harness_error is None && t.failure is None && stop ==> code == 130,
        t.harness_error is None && t.failure is None && !stop ==> code == 0,
        interrupted <==> code == 130,
{
}

/// A result ends the run unless it is a passed test.
pub proof fn only_passed_tests_let_a_run_go_on(
    result: Result<TestReport, String>,
    res: bool,
)
    requires
        call_ensures(ends_run, (&result,), res),
    ensures
        !res <==> result is Ok && result->Ok_0.verdict == Verdict::Ac,
{
}

// ---------------------------------------------------------------------------
// Artifacts
// ---------------------------------------------------------------------------

/// Of a failing test four files are saved into the directory: the input, the output,
/// the answer, and what the checker had to say, which is all that a custom checker
/// wrote or else the message.
pub proof fn a_failing_test_is_saved(p: Platform, r: TestReport, dir: &[u8], res: Vec<Artifact>)
    requires
        call_ensures(artifacts, (p, &r, dir), res),
    ensures
        res@.len() == 4,
        ({
            let inside = front_of(p, dir@);
            &&& res@[0].path@ == inside + encode_utf8("data.in"@)
            &&& res@[1].path@ == inside + encode_utf8("data.out"@)
            &&& res@[2].path@ == inside + encode_utf8("data.ans"@)
            &&& res@[3].path@ == inside + encode_utf8("checker.log"@)
        }),
        res@[0].content is CopyOf && res@[0].content->CopyOf_0@ == r.input@,
        res@[1].content is CopyOf && res@[1].content->CopyOf_0@ == r.candidate_output@,
        res@[2].content is CopyOf && res@[2].content->CopyOf_0@ == r.reference_output@,
        r.checker_ran ==> res@[3].content is Both && res@[3].content->Both_0@ == r.checker_stdout@
            && res@[3].content->Both_1@ == r.checker_stderr@,
        !r.checker_ran ==> res@[3].content is Text && res@[3].content->Text_0@ == r.message@,
{
}

/// Each error is told in its own words. That of an unknown checker shows the name and
/// all those that there are.
pub proof fn errors_are_told_in_their_words(e: SettingsError, name: &str, res: String)
    requires
        call_ensures(SettingsError::message, (e, name), res),
    ensures
        e == SettingsError::TwoCheckers ==> res@ == "--checker and --check are mutually exclusive"@,
        e == SettingsError::UnknownChecker ==> res@ == "unknown builtin checker `"@ + name@
            + "` (available: "@ + joined(
            seq!["wcmp"@, "lcmp"@, "ncmp"@, "rcmp4"@, "rcmp6"@, "rcmp9"@, "nyesno"@],
            ", "@,
        ) + ")"@,
        e == SettingsError::CheckerOptions ==> res@
            == "--checker-args/--checker-flags require -k/--checker"@,
        e == SettingsError::NoJobs ==> res@ == "--jobs must be at least 1"@,
        e == SettingsError::TimeLimit ==> res@ == "time limits must be positive"@,
        e == SettingsError::MemoryLimit ==> res@ == "memory limits must be at least 1 MB"@,
        e == SettingsError::NoTests ==> res@ == "--max-tests must be at least 1"@,
{
}

/// A run starts with nothing passed, nothing failed and nothing stopped.
pub proof fn a_run_starts_with_no_results(res: Tally)
    requires
        call_ensures(Tally::new, (), res),
    ensures
        res.passed == 0,
        res.failure is None,
        res.harness_error is None,
        !res.stopped,
{
}

} // verus!
