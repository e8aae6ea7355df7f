//! What reports show, whatever the tests were.

use vstd::prelude::*;
use vstd::string::*;

use crate::duration::{tenths_text, Duration};
use crate::judge::{format_memory, AuxProgram, Limits, TestReport, Verdict};
use crate::lang::{BuildResult, Language};
use crate::number::decimal;
use crate::report::{
    banner_lines, build_line, change_line, changes, diff_text, failure_lines, fits_in_diff,
    fmt_duration, line_diff, plain, render_diff, show_changes, spans, styled, summary_lines,
    test_line, verdict_badge, without_feeds, Banner, Change, Side, Span, Style,
};
use crate::text::{left_aligned, lossy_form, right_aligned};

verus! {

/// Whether a line is this text alone, without any style.
pub open spec fn is_plain_line(line: Vec<Span>, text: Seq<char>) -> bool {
    line@.len() == 1 && line@[0].text@ == text && line@[0].style == Style::Plain
}

/// Whether a piece of a line is this text in this style.
pub open spec fn is_piece(s: Span, text: Seq<char>, style: Style) -> bool {
    s.text@ == text && s.style == style
}

proof fn lemma_line(lines: Seq<Vec<Span>>, i: int)
    requires
        0 <= i < lines.len(),
    ensures
        styled(lines).len() == lines.len(),
        styled(lines)[i] == spans(lines[i]@),
        spans(lines[i]@).len() == lines[i]@.len(),
        forall|k: int|
            0 <= k < lines[i]@.len() ==> spans(lines[i]@)[k] == (
                (#[trigger] lines[i]@[k]).text@,
                lines[i]@[k].style,
            ),
{
}

proof fn lemma_plain_line(lines: Seq<Vec<Span>>, i: int, text: Seq<char>)
    requires
        0 <= i < lines.len(),
        styled(lines)[i] == plain(text),
    ensures
        is_plain_line(lines[i], text),
{
    lemma_line(lines, i);
    assert(plain(text).len() == 1);
    assert(plain(text)[0] == (text, Style::Plain));
    assert(spans(lines[i]@)[0] == (lines[i]@[0].text@, lines[i]@[0].style));
}

/// Every verdict has its label and its style.
pub proof fn verdicts_have_their_labels(v: Verdict, res: Span)
    requires
        call_ensures(verdict_badge, (v,), res),
    ensures
        match v {
            Verdict::Ac => is_piece(res, "AC"@, Style::GreenBold),
            Verdict::Wa => is_piece(res, "WA"@, Style::RedBold),
            Verdict::Tle => is_piece(res, "TLE"@, Style::YellowBold),
            Verdict::Mle => is_piece(res, "MLE"@, Style::MagentaBold),
            Verdict::Re => is_piece(res, "RE"@, Style::RedBold),
            Verdict::Failed => is_piece(res, "FAILED"@, Style::RedBold),
        },
{
}

/// The line on a test tells its verdict, its seed, and the candidate's CPU time and
/// memory.
pub proof fn a_test_is_told_in_a_line(
    r: TestReport,
    badge: Span,
    time: String,
    memory: String,
    res: Vec<Span>,
)
    requires
        call_ensures(verdict_badge, (r.verdict,), badge),
        call_ensures(fmt_duration, (r.candidate_time,), time),
        call_ensures(format_memory, (r.candidate_memory,), memory),
        call_ensures(test_line, (&r,), res),
    ensures
        res@.len() == 2,
        is_piece(res@[0], badge.text@, badge.style),
        is_piece(
            res@[1],
            " on test #"@ + left_aligned(decimal(r.seed as nat), 6) + " "@ + right_aligned(time@, 10)
                + "  "@ + right_aligned(memory@, 10),
            Style::Plain,
        ),
{
    let s = spans(res@);
    assert(s.len() == res@.len());
    assert(s[0] == (res@[0].text@, res@[0].style));
    assert(s[1] == (res@[1].text@, res@[1].style));
}

/// The line on a built program tells its role, its name, its language and how it came
/// to be.
pub proof fn a_built_program_is_told_in_a_line(
    role: &str,
    r: BuildResult,
    language: &'static str,
    note: &'static str,
    res: Vec<Span>,
)
    requires
        call_ensures(Language::name, (r.language,), language),
        call_ensures(BuildResult::note, (&r,), note),
        call_ensures(build_line, (role, &r), res),
    ensures
        res@.len() == 3,
        is_piece(res@[0], "  "@, Style::Plain),
        is_piece(res@[1], "✓"@, Style::Green),
        is_piece(
            res@[2],
            " "@ + left_aligned(role@, 10) + " "@ + left_aligned(r.program.display@, 24) + " ("@
                + language@ + ", "@ + note@ + ")"@,
            Style::Plain,
        ),
{
    let s = spans(res@);
    assert(s.len() == res@.len());
    assert(s[0] == (res@[0].text@, res@[0].style));
    assert(s[1] == (res@[1].text@, res@[1].style));
    assert(s[2] == (res@[2].text@, res@[2].style));
}

/// How a program came to be depends on its language, and for a compiled one on
/// whether it was in the cache.
pub proof fn notes_tell_how_a_program_came_to_be(r: BuildResult, note: &'static str)
    requires
        call_ensures(BuildResult::note, (&r,), note),
    ensures
        note@ == (match r.language {
            Language::Binary => "prebuilt"@,
            Language::Python | Language::JavaScript => "interpreted"@,
            _ => if r.cached {
                "cached"@
            } else {
                "compiled"@
            },
        }),
{
}

/// The banner tells the programs with their languages, the checker, the limits, the
/// number of jobs and tests, and the first seed.
pub proof fn the_banner_tells_everything(b: &Banner, memory: String, res: Vec<Vec<Span>>)
    requires
        call_ensures(format_memory, (b.limits.memory,), memory),
        call_ensures(banner_lines, (b,), res),
    ensures
        res@.len() == 8,
        res@[0]@.len() == 1 && is_piece(res@[0]@[0], "Test Information"@, Style::Bold),
        is_plain_line(
            res@[1],
            "  "@ + left_aligned("candidate:"@, 10) + " "@ + (b.candidate@ + " ("@
                + b.candidate_lang@ + ")"@),
        ),
        is_plain_line(
            res@[2],
            "  "@ + left_aligned("reference:"@, 10) + " "@ + (b.reference@ + " ("@
                + b.reference_lang@ + ")"@),
        ),
        is_plain_line(
            res@[3],
            "  "@ + left_aligned("generator:"@, 10) + " "@ + (b.generator@ + " ("@
                + b.generator_lang@ + ")"@),
        ),
        is_plain_line(res@[4], "  "@ + left_aligned("checker:"@, 10) + " "@ + b.checker@),
        is_plain_line(
            res@[5],
            "  "@ + left_aligned("limits:"@, 10) + " "@ + ("TL "@ + b.time_limit@ + " / ML "@
                + memory@),
        ),
        is_plain_line(
            res@[6],
            "  "@ + left_aligned("metadata:"@, 10) + " "@ + (decimal(b.jobs as nat) + " jobs, "@ + (
            match b.max_tests {
                Some(n) => decimal(n as nat),
                None => "∞"@,
            }) + " tests, initial seed = "@ + decimal(b.start_seed as nat)),
        ),
        res@[7]@.len() == 0,
{
    let s = styled(res@);
    assert(s.len() == res@.len());
    lemma_line(res@, 0);
    assert(spans(res@[0]@)[0] == (res@[0]@[0].text@, res@[0]@[0].style));
    lemma_plain_line(
        res@,
        1,
        "  "@ + left_aligned("candidate:"@, 10) + " "@ + (b.candidate@ + " ("@ + b.candidate_lang@
            + ")"@),
    );
    lemma_plain_line(
        res@,
        2,
        "  "@ + left_aligned("reference:"@, 10) + " "@ + (b.reference@ + " ("@ + b.reference_lang@
            + ")"@),
    );
    lemma_plain_line(
        res@,
        3,
        "  "@ + left_aligned("generator:"@, 10) + " "@ + (b.generator@ + " ("@ + b.generator_lang@
            + ")"@),
    );
    lemma_plain_line(res@, 4, "  "@ + left_aligned("checker:"@, 10) + " "@ + b.checker@);
    lemma_plain_line(
        res@,
        5,
        "  "@ + left_aligned("limits:"@, 10) + " "@ + ("TL "@ + b.time_limit@ + " / ML "@ + memory@),
    );
    lemma_plain_line(
        res@,
        6,
        "  "@ + left_aligned("metadata:"@, 10) + " "@ + (decimal(b.jobs as nat) + " jobs, "@ + (
        match b.max_tests {
            Some(n) => decimal(n as nat),
            None => "∞"@,
        }) + " tests, initial seed = "@ + decimal(b.start_seed as nat)),
    );
    lemma_line(res@, 7);
}

// ---------------------------------------------------------------------------
// Diffs
// ---------------------------------------------------------------------------

/// Whether bytes are line feeds throughout.
pub open spec fn are_feeds(s: Seq<char>) -> bool {
    forall|i: int| 0 <= i < s.len() ==> #[trigger] s[i] == '\n'
}

/// A line of a diff is shown without the line feeds at its end, all of them and
/// nothing else.
pub proof fn feeds_are_not_shown(t: Seq<char>, feeds: Seq<char>)
    requires
        are_feeds(feeds),
        t.len() == 0 || t.last() != '\n',
    ensures
        without_feeds(t + feeds) == t,
    decreases feeds.len(),
{
    if feeds.len() == 0 {
        assert(t + feeds =~= t);
    } else {
        let f = feeds.drop_last();
        assert forall|i: int| 0 <= i < f.len() implies #[trigger] f[i] == '\n' by {
            assert(f[i] == feeds[i]);
        }
        feeds_are_not_shown(t, f);
        assert(feeds[feeds.len() - 1] == '\n');
        assert((t + feeds).last() == feeds.last());
        assert((t + feeds).drop_last() =~= t + f);
    }
}

/// The first thirty lines of a diff are shown, each marked by the text it belongs to;
/// where there are more, a last line says so.
pub proof fn changes_are_marked_by_their_side(v: Vec<Change>, i: int, res: Vec<Vec<Span>>)
    requires
        0 <= i < v@.len(),
        i < 30,
        call_ensures(show_changes, (&v,), res),
    ensures
        v@.len() <= 30 ==> res@.len() == v@.len(),
        v@.len() > 30 ==> res@.len() == 31,
        v@.len() > 30 ==> {
            let more = res@[30]@;
            &&& more.len() == 3
            &&& is_piece(more[0], "         "@, Style::Plain)
            &&& is_piece(more[1], "..."@, Style::Dimmed)
            &&& is_piece(more[2], " more lines..."@, Style::Plain)
        },
        res@[i]@.len() == 2,
        ({
            let text = without_feeds(v@[i].text@);
            match v@[i].side {
                Side::Both => is_piece(res@[i]@[0], "           "@, Style::Plain) && is_piece(
                    res@[i]@[1],
                    text,
                    Style::Plain,
                ),
                Side::Expected => is_piece(res@[i]@[0], "         - "@, Style::Plain) && is_piece(
                    res@[i]@[1],
                    text,
                    Style::Green,
                ),
                Side::Found => is_piece(res@[i]@[0], "         + "@, Style::Plain) && is_piece(
                    res@[i]@[1],
                    text,
                    Style::Red,
                ),
            }
        }),
{
    let c = changes(v@);
    assert(c.len() == v@.len());
    assert(c[i] == (v@[i].side, v@[i].text@));
    assert(styled(res@) == diff_text(c));
    assert(styled(res@).len() == res@.len());
    lemma_line(res@, i);
    let line = change_line(v@[i].side, v@[i].text@);
    assert(styled(res@)[i] == line);
    assert(spans(res@[i]@)[0] == (res@[i]@[0].text@, res@[i]@[0].style));
    assert(spans(res@[i]@)[1] == (res@[i]@[1].text@, res@[i]@[1].style));
    if v@.len() > 30 {
        lemma_line(res@, 30);
        assert(spans(res@[30]@)[0] == (res@[30]@[0].text@, res@[30]@[0].style));
        assert(spans(res@[30]@)[1] == (res@[30]@[1].text@, res@[30]@[1].style));
        assert(spans(res@[30]@)[2] == (res@[30]@[2].text@, res@[30]@[2].style));
    }
}

/// A file of up to a million bytes fits into a diff, and no larger one.
pub proof fn a_million_bytes_fit_in_a_diff(bytes: u64, res: bool)
    requires
        call_ensures(fits_in_diff, (bytes,), res),
    ensures
        res <==> bytes <= 1_000_000,
{
}

/// There is a diff exactly where both files could be read, both fit and they read
/// differently. It is that of the expected text to the one that was found.
pub proof fn different_files_that_fit_are_compared(
    expected: Option<Vec<u8>>,
    found: Option<Vec<u8>>,
    res: Option<Vec<Vec<Span>>>,
)
    requires
        call_ensures(render_diff, (&expected, &found), res),
    ensures
        res is Some <==> {
            &&& expected is Some
            &&& found is Some
            &&& expected->0@.len() <= 1_000_000
            &&& found->0@.len() <= 1_000_000
            &&& lossy_form(expected->0@) != lossy_form(found->0@)
        },
        res is Some ==> styled(res->0@) == diff_text(
            line_diff(lossy_form(expected->0@), lossy_form(found->0@)),
        ),
{
}

// ---------------------------------------------------------------------------
// The end
// ---------------------------------------------------------------------------

/// The report of a failing test tells the verdict with the program that failed, the
/// seed, the figures with their limits, the message where there is one, the diff of
/// a wrong answer, and where the files are.
pub proof fn a_failing_test_is_told_in_full(
    r: TestReport,
    limits: Limits,
    time_limit: &str,
    diff: Option<Vec<Vec<Span>>>,
    saved: Option<&str>,
    badge: Span,
    cpu: String,
    wall: String,
    memory: String,
    limit: String,
    name: &'static str,
    res: Vec<Vec<Span>>,
)
    requires
        call_ensures(verdict_badge, (r.verdict,), badge),
        call_ensures(fmt_duration, (r.candidate_time,), cpu),
        call_ensures(fmt_duration, (r.candidate_wall,), wall),
        call_ensures(format_memory, (r.candidate_memory,), memory),
        call_ensures(format_memory, (limits.memory,), limit),
        r.failed_aux is Some ==> call_ensures(AuxProgram::name, (r.failed_aux->0,), name),
        call_ensures(failure_lines, (&r, &limits, time_limit, diff, saved), res),
    ensures
        ({
            let m = if r.message@.len() == 0 {
                0int
            } else {
                1
            };
            let d = if diff is Some && r.verdict == Verdict::Wa {
                1 + diff->0@.len() as int
            } else {
                0
            };
            let s = if saved is Some {
                1int
            } else {
                0
            };
            &&& res@.len() == 3 + m + d + s
            &&& res@[0]@.len() == 0
            &&& res@[1]@.len() == 2
            &&& is_piece(res@[1]@[0], badge.text@, badge.style)
            &&& is_piece(
                res@[1]@[1],
                (if r.failed_aux is Some {
                    " ("@ + name@ + ")"@
                } else {
                    ""@
                }) + " on test #"@ + decimal(r.seed as nat),
                Style::Plain,
            )
            &&& is_plain_line(
                res@[2],
                "         cpu: "@ + cpu@ + " (limit "@ + time_limit@ + ")   wall: "@ + wall@
                    + "   memory: "@ + memory@ + " (limit "@ + limit@ + ")"@,
            )
            &&& m == 1 ==> is_plain_line(res@[3], "         "@ + r.message@)
            &&& d > 0 ==> forall|k: int|
                0 <= k < diff->0@.len() ==> spans(res@[4 + m + k]@) == spans(
                    (#[trigger] diff->0@[k])@,
                )
            &&& s == 1 ==> is_plain_line(res@[2 + m + d + s], "         saved: "@ + saved->0@)
        }),
{
    let all = styled(res@);
    assert(all.len() == res@.len());
    let m = if r.message@.len() == 0 {
        0int
    } else {
        1
    };
    let d = if diff is Some && r.verdict == Verdict::Wa {
        1 + diff->0@.len() as int
    } else {
        0
    };
    if diff is Some {
        assert(styled(diff->0@).len() == diff->0@.len());
    }
    lemma_line(res@, 0);
    lemma_line(res@, 1);
    assert(spans(res@[1]@)[0] == (res@[1]@[0].text@, res@[1]@[0].style));
    assert(spans(res@[1]@)[1] == (res@[1]@[1].text@, res@[1]@[1].style));
    lemma_plain_line(
        res@,
        2,
        "         cpu: "@ + cpu@ + " (limit "@ + time_limit@ + ")   wall: "@ + wall@
            + "   memory: "@ + memory@ + " (limit "@ + limit@ + ")"@,
    );
    if m == 1 {
        lemma_plain_line(res@, 3, "         "@ + r.message@);
    }
    if d > 0 {
        assert forall|k: int| 0 <= k < diff->0@.len() implies spans(res@[4 + m + k]@) == spans(
            (#[trigger] diff->0@[k])@,
        ) by {
            assert(all[4 + m + k] == styled(diff->0@)[k]);
        }
    }
    if saved is Some {
        lemma_plain_line(res@, 3 + m + d, "         saved: "@ + saved->0@);
    }
}

/// The last words tell how many tests passed and in what time, and whether the run was
/// interrupted.
pub proof fn the_last_words_count_the_tests(
    passed: u64,
    elapsed: Duration,
    interrupted: bool,
    rate: &str,
    res: Vec<Vec<Span>>,
)
    requires
        call_ensures(summary_lines, (passed, elapsed, interrupted, rate), res),
    ensures
        res@.len() == 2,
        res@[0]@.len() == 0,
        res@[1]@.len() == 2,
        interrupted ==> is_piece(res@[1]@[0], "STOP"@, Style::YellowBold) && is_piece(
            res@[1]@[1],
            " interrupted after "@ + decimal(passed as nat) + " test(s), all passed so far ("@
                + tenths_text(elapsed@) + "s)"@,
            Style::Plain,
        ),
        !interrupted ==> is_piece(res@[1]@[0], "OK"@, Style::GreenBold) && is_piece(
            res@[1]@[1],
            " "@ + decimal(passed as nat) + " test(s) passed in "@ + tenths_text(elapsed@) + "s ("@
                + rate@ + " tests/s)"@,
            Style::Plain,
        ),
{
    assert(styled(res@).len() == res@.len());
    lemma_line(res@, 0);
    lemma_line(res@, 1);
    assert(spans(res@[1]@)[0] == (res@[1]@[0].text@, res@[1]@[0].style));
    assert(spans(res@[1]@)[1] == (res@[1]@[1].text@, res@[1]@[1].style));
}

} // verus!
