//! What is shown to the user: the banner, a line per test, the report of a
//! failing test with a diff, and the summary.
//!
//! Everything is put together as lines of styled text. Whether and how a style
//! reaches the terminal is decided where the lines are printed.

use similar::{ChangeTag, TextDiff};
use vstd::prelude::*;
use vstd::string::*;

use crate::duration::{
    hundredths_text, push_hundredths, push_tenths, tenths_text, Duration,
};
use crate::judge::{aux_name, format_memory, memory_text, Limits, TestReport, Verdict};
use crate::lang::{build_note, language_name, BuildResult};
use crate::number::{decimal, push_decimal};
use crate::text::{
    chars_of, left_aligned, lossy, lossy_form, push_left_aligned, push_right_aligned,
    right_aligned, same_text, string_of,
};

verus! {

/// How a piece of text stands out.
#[derive(Debug, Clone, Copy, PartialEq, Eq, Structural)]
pub enum Style {
    Plain,
    Bold,
    Dimmed,
    Green,
    Red,
    GreenBold,
    RedBold,
    YellowBold,
    MagentaBold,
}

/// A piece of styled text.
pub struct Span {
    pub text: String,
    pub style: Style,
}

/// The pieces of a line.
pub open spec fn spans(line: Seq<Span>) -> Seq<(Seq<char>, Style)> {
    line.map_values(|s: Span| (s.text@, s.style))
}

/// The pieces of several lines.
pub open spec fn styled(lines: Seq<Vec<Span>>) -> Seq<Seq<(Seq<char>, Style)>> {
    lines.map_values(|l: Vec<Span>| spans(l@))
}

/// A line without any style.
pub open spec fn plain(s: Seq<char>) -> Seq<(Seq<char>, Style)> {
    seq![(s, Style::Plain)]
}

fn push_span(line: &mut Vec<Span>, text: String, style: Style)
    ensures
        spans(final(line)@) == spans(old(line)@).push((text@, style)),
{
    let ghost before = spans(line@);
    line.push(Span { text, style });
    assert(spans(line@) =~= before.push((text@, style)));
}

fn push_line(lines: &mut Vec<Vec<Span>>, line: Vec<Span>)
    ensures
        styled(final(lines)@) == styled(old(lines)@).push(spans(line@)),
{
    let ghost before = styled(lines@);
    lines.push(line);
    assert(styled(lines@) =~= before.push(spans(line@)));
}

fn push_plain(lines: &mut Vec<Vec<Span>>, text: String)
    ensures
        styled(final(lines)@) == styled(old(lines)@).push(plain(text@)),
{
    let mut line: Vec<Span> = Vec::new();
    push_span(&mut line, text, Style::Plain);
    assert(spans(line@) =~= plain(text@));
    push_line(lines, line);
}

fn push_empty(lines: &mut Vec<Vec<Span>>)
    ensures
        styled(final(lines)@) == styled(old(lines)@).push(seq![]),
{
    let line: Vec<Span> = Vec::new();
    assert(spans(line@) =~= seq![]);
    push_line(lines, line);
}

// ---------------------------------------------------------------------------
// Verdicts and times
// ---------------------------------------------------------------------------

pub open spec fn verdict_label(v: Verdict) -> Seq<char> {
    match v {
        Verdict::Ac => "AC"@,
        Verdict::Wa => "WA"@,
        Verdict::Tle => "TLE"@,
        Verdict::Mle => "MLE"@,
        Verdict::Re => "RE"@,
        Verdict::Failed => "FAILED"@,
    }
}

pub open spec fn verdict_style(v: Verdict) -> Style {
    match v {
        Verdict::Ac => Style::GreenBold,
        Verdict::Wa | Verdict::Re | Verdict::Failed => Style::RedBold,
        Verdict::Tle => Style::YellowBold,
        Verdict::Mle => Style::MagentaBold,
    }
}

/// A verdict as it is shown.
pub fn verdict_badge(v: Verdict) -> (res: Span)
    ensures
        res.text@ == verdict_label(v),
        res.style == verdict_style(v),
{
    let (label, style) = match v {
        Verdict::Ac => ("AC", Style::GreenBold),
        Verdict::Wa => ("WA", Style::RedBold),
        Verdict::Tle => ("TLE", Style::YellowBold),
        Verdict::Mle => ("MLE", Style::MagentaBold),
        Verdict::Re => ("RE", Style::RedBold),
        Verdict::Failed => ("FAILED", Style::RedBold),
    };
    Span { text: label.to_owned(), style }
}

/// Verdicts can be told apart by their labels.
pub proof fn labels_are_distinct(a: Verdict, b: Verdict)
    requires
        verdict_label(a) == verdict_label(b),
    ensures
        a == b,
{
    reveal_strlit("AC");
    reveal_strlit("WA");
    reveal_strlit("TLE");
    reveal_strlit("MLE");
    reveal_strlit("RE");
    reveal_strlit("FAILED");
    assert("AC"@[0] == 'A' && "WA"@[0] == 'W' && "TLE"@[0] == 'T');
    assert("MLE"@[0] == 'M' && "RE"@[0] == 'R' && "FAILED"@[0] == 'F');
}

/// A span of time as it is shown: in milliseconds below a second, and in
/// seconds with two decimals from there on.
pub open spec fn duration_text(d: nat) -> Seq<char> {
    if d < 1_000_000_000 {
        decimal(d / 1_000_000) + " ms"@
    } else {
        hundredths_text(d) + " s"@
    }
}

/// A span of time as it is shown.
pub fn fmt_duration(d: Duration) -> (res: String)
    ensures
        res@ == duration_text(d@),
{
    let mut res = String::new();
    if d.as_secs() == 0 {
        push_decimal(&mut res, d.as_millis());
        res.append(" ms");
    } else {
        push_hundredths(&mut res, d);
        res.append(" s");
    }
    assert(res@ =~= duration_text(d@));
    res
}

// ---------------------------------------------------------------------------
// Before the first test
// ---------------------------------------------------------------------------

/// The line on a program that was built.
pub open spec fn built_line(role: Seq<char>, r: BuildResult) -> Seq<(Seq<char>, Style)> {
    seq![
        ("  "@, Style::Plain),
        ("✓"@, Style::Green),
        (
            " "@ + left_aligned(role, 10) + " "@ + left_aligned(r.program.display@, 24) + " ("@
                + language_name(r.language) + ", "@ + build_note(r.language, r.cached) + ")"@,
            Style::Plain,
        ),
    ]
}

/// The line on a program that was built.
pub fn build_line(role: &str, r: &BuildResult) -> (res: Vec<Span>)
    ensures
        spans(res@) == built_line(role@, *r),
{
    let mut line: Vec<Span> = Vec::new();
    push_span(&mut line, "  ".to_owned(), Style::Plain);
    push_span(&mut line, "✓".to_owned(), Style::Green);
    let mut rest = " ".to_owned();
    push_left_aligned(&mut rest, role, 10);
    rest.append(" ");
    push_left_aligned(&mut rest, r.program.display.as_str(), 24);
    rest.append(" (");
    rest.append(r.language.name());
    rest.append(", ");
    rest.append(r.note());
    rest.append(")");
    push_span(&mut line, rest, Style::Plain);
    assert(spans(line@) =~= built_line(role@, *r));
    line
}

/// What the banner tells.
pub struct Banner<'a> {
    pub candidate: &'a str,
    pub candidate_lang: &'a str,
    pub reference: &'a str,
    pub reference_lang: &'a str,
    pub generator: &'a str,
    pub generator_lang: &'a str,
    pub checker: &'a str,
    pub limits: Limits,
    /// The time limit as it is written.
    pub time_limit: &'a str,
    pub jobs: usize,
    pub start_seed: u64,
    pub max_tests: Option<u64>,
}

/// A line of the banner.
pub open spec fn field(label: Seq<char>, value: Seq<char>) -> Seq<char> {
    "  "@ + left_aligned(label, 10) + " "@ + value
}

pub open spec fn program_text(name: Seq<char>, lang: Seq<char>) -> Seq<char> {
    name + " ("@ + lang + ")"@
}

pub open spec fn limits_text(time_limit: Seq<char>, memory: nat) -> Seq<char> {
    "TL "@ + time_limit + " / ML "@ + memory_text(memory)
}

pub open spec fn metadata_text(jobs: nat, max_tests: Option<u64>, start_seed: nat) -> Seq<char> {
    decimal(jobs) + " jobs, "@ + (match max_tests {
        Some(n) => decimal(n as nat),
        None => "∞"@,
    }) + " tests, initial seed = "@ + decimal(start_seed)
}

/// The lines of the banner.
pub open spec fn banner_text(b: Banner) -> Seq<Seq<(Seq<char>, Style)>> {
    seq![
        seq![("Test Information"@, Style::Bold)],
        plain(field("candidate:"@, program_text(b.candidate@, b.candidate_lang@))),
        plain(field("reference:"@, program_text(b.reference@, b.reference_lang@))),
        plain(field("generator:"@, program_text(b.generator@, b.generator_lang@))),
        plain(field("checker:"@, b.checker@)),
        plain(field("limits:"@, limits_text(b.time_limit@, b.limits.memory as nat))),
        plain(
            field("metadata:"@, metadata_text(b.jobs as nat, b.max_tests, b.start_seed as nat)),
        ),
        seq![],
    ]
}

fn make_field(label: &str, value: &str) -> (res: String)
    ensures
        res@ == field(label@, value@),
{
    let mut res = "  ".to_owned();
    push_left_aligned(&mut res, label, 10);
    res.append(" ");
    res.append(value);
    assert(res@ =~= field(label@, value@));
    res
}

fn make_program(name: &str, lang: &str) -> (res: String)
    ensures
        res@ == program_text(name@, lang@),
{
    let mut res = name.to_owned();
    res.append(" (");
    res.append(lang);
    res.append(")");
    res
}

/// The lines of the banner.
pub fn banner_lines(b: &Banner) -> (res: Vec<Vec<Span>>)
    ensures
        styled(res@) == banner_text(*b),
{
    let mut lines: Vec<Vec<Span>> = Vec::new();
    let mut title: Vec<Span> = Vec::new();
    push_span(&mut title, "Test Information".to_owned(), Style::Bold);
    assert(spans(title@) =~= seq![("Test Information"@, Style::Bold)]);
    push_line(&mut lines, title);
    let candidate = make_program(b.candidate, b.candidate_lang);
    push_plain(&mut lines, make_field("candidate:", candidate.as_str()));
    let reference = make_program(b.reference, b.reference_lang);
    push_plain(&mut lines, make_field("reference:", reference.as_str()));
    let generator = make_program(b.generator, b.generator_lang);
    push_plain(&mut lines, make_field("generator:", generator.as_str()));
    push_plain(&mut lines, make_field("checker:", b.checker));
    let mut limits = "TL ".to_owned();
    limits.append(b.time_limit);
    limits.append(" / ML ");
    let memory = format_memory(b.limits.memory);
    limits.append(memory.as_str());
    push_plain(&mut lines, make_field("limits:", limits.as_str()));
    let mut metadata = String::new();
    push_decimal(&mut metadata, b.jobs as u128);
    metadata.append(" jobs, ");
    match b.max_tests {
        Some(n) => push_decimal(&mut metadata, n as u128),
        None => metadata.append("∞"),
    }
    metadata.append(" tests, initial seed = ");
    push_decimal(&mut metadata, b.start_seed as u128);
    assert(metadata@ =~= metadata_text(b.jobs as nat, b.max_tests, b.start_seed as nat));
    push_plain(&mut lines, make_field("metadata:", metadata.as_str()));
    push_empty(&mut lines);
    assert(styled(lines@) =~= banner_text(*b));
    lines
}

// ---------------------------------------------------------------------------
// Tests
// ---------------------------------------------------------------------------

/// The line on a test that is over.
pub open spec fn tested_line(r: TestReport) -> Seq<(Seq<char>, Style)> {
    seq![
        (verdict_label(r.verdict), verdict_style(r.verdict)),
        (
            " on test #"@ + left_aligned(decimal(r.seed as nat), 6) + " "@ + right_aligned(
                duration_text(r.candidate_time@),
                10,
            ) + "  "@ + right_aligned(memory_text(r.candidate_memory as nat), 10),
            Style::Plain,
        ),
    ]
}

fn seed_text(seed: u64) -> (res: String)
    ensures
        res@ == decimal(seed as nat),
{
    let mut res = String::new();
    push_decimal(&mut res, seed as u128);
    assert(res@ =~= decimal(seed as nat));
    res
}

/// The line on a test that is over.
pub fn test_line(r: &TestReport) -> (res: Vec<Span>)
    ensures
        spans(res@) == tested_line(*r),
{
    let mut line: Vec<Span> = Vec::new();
    let badge = verdict_badge(r.verdict);
    push_span(&mut line, badge.text, badge.style);
    let mut rest = " on test #".to_owned();
    let seed = seed_text(r.seed);
    push_left_aligned(&mut rest, seed.as_str(), 6);
    rest.append(" ");
    let time = fmt_duration(r.candidate_time);
    push_right_aligned(&mut rest, time.as_str(), 10);
    rest.append("  ");
    let memory = format_memory(r.candidate_memory);
    push_right_aligned(&mut rest, memory.as_str(), 10);
    push_span(&mut line, rest, Style::Plain);
    assert(spans(line@) =~= tested_line(*r));
    line
}

// ---------------------------------------------------------------------------
// Diffs
// ---------------------------------------------------------------------------

/// Which text a line belongs to.
#[derive(Debug, Clone, Copy, PartialEq, Eq, Structural)]
pub enum Side {
    Both,
    Expected,
    Found,
}

/// A line of a diff, with the line break that ends it.
pub struct Change {
    pub side: Side,
    pub text: String,
}

/// What stands in a list of changes.
pub open spec fn changes(v: Seq<Change>) -> Seq<(Side, Seq<char>)> {
    v.map_values(|c: Change| (c.side, c.text@))
}

/// The line-wise difference of two texts.
pub uninterp spec fn line_diff(expected: Seq<char>, found: Seq<char>) -> Seq<(Side, Seq<char>)>;

/// Compares two texts line by line.
///
/// Calls `similar::TextDiff::from_lines` and hands out what `iter_all_changes`
/// yields, the tag and the line of each change in their order. The result
/// depends on the two texts alone and is named by `line_diff`. Every line is in
/// some change, so that there is one unless both texts are empty. Which of the
/// possible differences it is, is left to the name. Distinct lines are counted
/// in 32 bits, which texts of fewer characters cannot exhaust.
#[verifier::external_body]
pub(crate) fn diff_lines(expected: &str, found: &str) -> (res: Vec<Change>)
    requires
        expected@.len() + found@.len() <= u32::MAX,
    ensures
        changes(res@) == line_diff(expected@, found@),
        expected@.len() + found@.len() > 0 ==> res@.len() > 0,
{
    let diff = TextDiff::from_lines(expected, found);
    diff.iter_all_changes().map(
        |c| Change {
            side: match c.tag() {
                ChangeTag::Equal => Side::Both,
                ChangeTag::Delete => Side::Expected,
                ChangeTag::Insert => Side::Found,
            },
            text: c.value().to_owned(),
        },
    ).collect()
}

/// A line without the line feeds at its end.
pub open spec fn without_feeds(s: Seq<char>) -> Seq<char>
    decreases s.len(),
{
    if s.len() > 0 && s.last() == '\n' {
        without_feeds(s.drop_last())
    } else {
        s
    }
}

/// A line of a diff as it is shown.
pub open spec fn change_line(side: Side, text: Seq<char>) -> Seq<(Seq<char>, Style)> {
    let text = without_feeds(text);
    match side {
        Side::Both => seq![("           "@, Style::Plain), (text, Style::Plain)],
        Side::Expected => seq![("         - "@, Style::Plain), (text, Style::Green)],
        Side::Found => seq![("         + "@, Style::Plain), (text, Style::Red)],
    }
}

/// What stands in place of the lines that a diff leaves out.
pub open spec fn more_line() -> Seq<(Seq<char>, Style)> {
    seq![
        ("         "@, Style::Plain),
        ("..."@, Style::Dimmed),
        (" more lines..."@, Style::Plain),
    ]
}

/// The lines of a diff that are shown: thirty at most, and a mark where there
/// are more.
pub open spec fn diff_text(v: Seq<(Side, Seq<char>)>) -> Seq<Seq<(Seq<char>, Style)>> {
    let all = v.map_values(
        |c: (Side, Seq<char>)|
            {
                let (side, text) = c;
                change_line(side, text)
            },
    );
    if v.len() <= 30 {
        all
    } else {
        all.take(30).push(more_line())
    }
}

fn strip_feeds(s: &str) -> (res: String)
    ensures
        res@ == without_feeds(s@),
{
    let chars = chars_of(s);
    let mut n: usize = chars.len();
    assert(chars@.take(n as int) =~= s@);
    while n > 0 && chars[n - 1] == '\n'
        invariant
            n <= chars@.len(),
            without_feeds(s@) == without_feeds(chars@.take(n as int)),
        decreases n,
    {
        assert(chars@.take(n as int).drop_last() =~= chars@.take(n - 1));
        n -= 1;
    }
    assert(chars@.subrange(0, n as int) =~= chars@.take(n as int));
    string_of(&chars[0..n])
}

/// The lines of a diff that are shown.
pub fn show_changes(v: &Vec<Change>) -> (res: Vec<Vec<Span>>)
    ensures
        styled(res@) == diff_text(changes(v@)),
{
    let ghost all = changes(v@).map_values(
        |c: (Side, Seq<char>)|
            {
                let (side, text) = c;
                change_line(side, text)
            },
    );
    let mut lines: Vec<Vec<Span>> = Vec::new();
    assert(styled(lines@) =~= all.take(0));
    let mut i: usize = 0;
    while i < v.len()
        invariant
            i <= v@.len(),
            i <= 30,
            all == changes(v@).map_values(
                |c: (Side, Seq<char>)|
                    {
                        let (side, text) = c;
                        change_line(side, text)
                    },
            ),
            styled(lines@) == all.take(i as int),
        decreases v@.len() - i,
    {
        if i >= 30 {
            let mut line: Vec<Span> = Vec::new();
            push_span(&mut line, "         ".to_owned(), Style::Plain);
            push_span(&mut line, "...".to_owned(), Style::Dimmed);
            push_span(&mut line, " more lines...".to_owned(), Style::Plain);
            assert(spans(line@) =~= more_line());
            push_line(&mut lines, line);
            return lines;
        }
        let c = &v[i];
        let (prefix, style) = match c.side {
            Side::Both => ("           ", Style::Plain),
            Side::Expected => ("         - ", Style::Green),
            Side::Found => ("         + ", Style::Red),
        };
        let mut line: Vec<Span> = Vec::new();
        push_span(&mut line, prefix.to_owned(), Style::Plain);
        push_span(&mut line, strip_feeds(c.text.as_str()), style);
        assert(spans(line@) =~= change_line(c.side, c.text@));
        push_line(&mut lines, line);
        assert(all[i as int] == change_line(c.side, c.text@));
        assert(all.take(i + 1) =~= all.take(i as int).push(all[i as int]));
        i += 1;
    }
    assert(all.take(i as int) =~= all);
    lines
}

/// Whether a file of so many bytes is small enough to be shown in a diff.
pub open spec fn small_enough(bytes: int) -> bool {
    bytes <= 1_000_000
}

/// Whether a file is small enough to be shown in a diff.
pub fn fits_in_diff(bytes: u64) -> (res: bool)
    ensures
        res == small_enough(bytes as int),
{
    bytes <= 1_000_000
}

/// The diff of the answer and the output, of which each is what could be read
/// of its file. There is none where one of them is missing or too large, or
/// where the two read the same.
pub fn render_diff(expected: &Option<Vec<u8>>, found: &Option<Vec<u8>>) -> (res: Option<
    Vec<Vec<Span>>,
>)
    ensures
        match res {
            Some(lines) => {
                &&& expected is Some && found is Some
                &&& small_enough(expected->0@.len() as int) && small_enough(found->0@.len() as int)
                &&& lossy_form(expected->0@) != lossy_form(found->0@)
                &&& styled(lines@) == diff_text(
                    line_diff(lossy_form(expected->0@), lossy_form(found->0@)),
                )
                &&& 1 <= lines@.len() <= 31
            },
            None => {
                ||| expected is None
                ||| found is None
                ||| !small_enough(expected->0@.len() as int)
                ||| !small_enough(found->0@.len() as int)
                ||| lossy_form(expected->0@) == lossy_form(found->0@)
            },
        },
{
    match (expected, found) {
        (Some(a), Some(b)) => {
            if !fits_in_diff(a.len() as u64) || !fits_in_diff(b.len() as u64) {
                return None;
            }
            let a = lossy(a);
            let b = lossy(b);
            if same_text(a.as_str(), b.as_str()) {
                None
            } else {
                assert(a@.len() + b@.len() > 0) by {
                    if a@.len() + b@.len() == 0 {
                        assert(a@ =~= b@);
                    }
                }
                let all = diff_lines(a.as_str(), b.as_str());
                let lines = show_changes(&all);
                assert(styled(lines@).len() == lines@.len());
                assert(changes(all@).len() == all@.len());
                Some(lines)
            }
        },
        _ => None,
    }
}

/// A diff is never longer than thirty lines and the mark behind them, and it
/// leaves something out exactly where it says so.
pub proof fn diffs_are_bounded(v: Seq<(Side, Seq<char>)>)
    ensures
        diff_text(v).len() <= 31,
        v.len() <= 30 ==> diff_text(v).len() == v.len(),
        v.len() > 30 ==> diff_text(v).last() == more_line(),
        forall|i: int|
            0 <= i < v.len() && i < 30 ==> {
                let (side, text) = v[i];
                #[trigger] diff_text(v)[i] == change_line(side, text)
            },
{
}

// ---------------------------------------------------------------------------
// The end
// ---------------------------------------------------------------------------

/// The title of a failure report.
pub open spec fn title_line(r: TestReport) -> Seq<(Seq<char>, Style)> {
    let badge = (verdict_label(r.verdict), verdict_style(r.verdict));
    let rest = match r.failed_aux {
        Some(a) => " ("@ + aux_name(a) + ")"@,
        None => ""@,
    };
    seq![badge, (rest + " on test #"@ + decimal(r.seed as nat), Style::Plain)]
}

/// What the candidate took, set against its limits.
pub open spec fn usage_text(r: TestReport, limits: Limits, time_limit: Seq<char>) -> Seq<char> {
    "         cpu: "@ + duration_text(r.candidate_time@) + " (limit "@ + time_limit
        + ")   wall: "@ + duration_text(r.candidate_wall@) + "   memory: "@ + memory_text(
        r.candidate_memory as nat,
    ) + " (limit "@ + memory_text(limits.memory as nat) + ")"@
}

/// The line above a diff.
pub open spec fn diff_title() -> Seq<(Seq<char>, Style)> {
    seq![
        ("         diff ("@, Style::Plain),
        ("-"@, Style::Green),
        (" = expected, "@, Style::Plain),
        ("+"@, Style::Red),
        (" = found):"@, Style::Plain),
    ]
}

/// The report of a failing test.
pub open spec fn failure_text(
    r: TestReport,
    limits: Limits,
    time_limit: Seq<char>,
    diff: Option<Seq<Seq<(Seq<char>, Style)>>>,
    saved: Option<Seq<char>>,
) -> Seq<Seq<(Seq<char>, Style)>> {
    seq![seq![], title_line(r), plain(usage_text(r, limits, time_limit))] + (if r.message@.len()
        == 0 {
        seq![]
    } else {
        seq![plain("         "@ + r.message@)]
    }) + (match diff {
        Some(lines) => if r.verdict == Verdict::Wa {
            seq![diff_title()] + lines
        } else {
            seq![]
        },
        None => seq![],
    }) + (match saved {
        Some(dir) => seq![plain("         saved: "@ + dir)],
        None => seq![],
    })
}

fn push_title(lines: &mut Vec<Vec<Span>>, r: &TestReport)
    ensures
        styled(final(lines)@) == styled(old(lines)@).push(title_line(*r)),
{
    let mut line: Vec<Span> = Vec::new();
    let badge = verdict_badge(r.verdict);
    push_span(&mut line, badge.text, badge.style);
    let mut rest = "".to_owned();
    if let Some(a) = r.failed_aux {
        rest = " (".to_owned();
        rest.append(a.name());
        rest.append(")");
    }
    rest.append(" on test #");
    let seed = seed_text(r.seed);
    rest.append(seed.as_str());
    push_span(&mut line, rest, Style::Plain);
    assert(spans(line@) =~= title_line(*r));
    push_line(lines, line);
}

fn push_usage(lines: &mut Vec<Vec<Span>>, r: &TestReport, limits: &Limits, time_limit: &str)
    ensures
        styled(final(lines)@) == styled(old(lines)@).push(
            plain(usage_text(*r, *limits, time_limit@)),
        ),
{
    let mut usage = "         cpu: ".to_owned();
    let cpu = fmt_duration(r.candidate_time);
    usage.append(cpu.as_str());
    usage.append(" (limit ");
    usage.append(time_limit);
    usage.append(")   wall: ");
    let wall = fmt_duration(r.candidate_wall);
    usage.append(wall.as_str());
    usage.append("   memory: ");
    let memory = format_memory(r.candidate_memory);
    usage.append(memory.as_str());
    usage.append(" (limit ");
    let limit = format_memory(limits.memory);
    usage.append(limit.as_str());
    usage.append(")");
    assert(usage@ =~= usage_text(*r, *limits, time_limit@));
    push_plain(lines, usage);
}

fn push_diff(lines: &mut Vec<Vec<Span>>, diff: Vec<Vec<Span>>)
    ensures
        styled(final(lines)@) == styled(old(lines)@) + (seq![diff_title()] + styled(diff@)),
{
    let ghost before = styled(lines@);
    let mut title: Vec<Span> = Vec::new();
    push_span(&mut title, "         diff (".to_owned(), Style::Plain);
    push_span(&mut title, "-".to_owned(), Style::Green);
    push_span(&mut title, " = expected, ".to_owned(), Style::Plain);
    push_span(&mut title, "+".to_owned(), Style::Red);
    push_span(&mut title, " = found):".to_owned(), Style::Plain);
    assert(spans(title@) =~= diff_title());
    push_line(lines, title);
    let ghost titled = lines@;
    let mut diff = diff;
    let ghost more = diff@;
    lines.append(&mut diff);
    assert(lines@ =~= titled + more);
    assert(styled(lines@) =~= styled(titled) + styled(more));
    assert(before.push(diff_title()) + styled(more) =~= before + (seq![diff_title()] + styled(
        more,
    )));
}

/// The report of a failing test. `time_limit` is the candidate's time limit as
/// it is written, `diff` the diff if there is one, and `saved` the directory
/// that the test's files were saved in.
pub fn failure_lines(
    r: &TestReport,
    limits: &Limits,
    time_limit: &str,
    diff: Option<Vec<Vec<Span>>>,
    saved: Option<&str>,
) -> (res: Vec<Vec<Span>>)
    ensures
        styled(res@) == failure_text(
            *r,
            *limits,
            time_limit@,
            match diff {
                Some(lines) => Some(styled(lines@)),
                None => None,
            },
            match saved {
                Some(dir) => Some(dir@),
                None => None,
            },
        ),
{
    let mut lines: Vec<Vec<Span>> = Vec::new();
    push_empty(&mut lines);
    push_title(&mut lines, r);
    push_usage(&mut lines, r, limits, time_limit);
    if !r.message.as_str().is_empty() {
        let mut message = "         ".to_owned();
        message.append(r.message.as_str());
        push_plain(&mut lines, message);
    }
    let ghost shown = if diff is Some {
        Some(styled(diff->0@))
    } else {
        None
    };
    if r.verdict == Verdict::Wa {
        if let Some(d) = diff {
            push_diff(&mut lines, d);
        }
    }
    if let Some(dir) = saved {
        let mut note = "         saved: ".to_owned();
        note.append(dir);
        push_plain(&mut lines, note);
    }
    assert(styled(lines@) =~= failure_text(
        *r,
        *limits,
        time_limit@,
        shown,
        match saved {
            Some(dir) => Some(dir@),
            None => None,
        },
    ));
    lines
}

/// The last words of a run in which nothing failed.
pub open spec fn summary_text(
    passed: nat,
    elapsed: nat,
    interrupted: bool,
    rate: Seq<char>,
) -> Seq<Seq<(Seq<char>, Style)>> {
    seq![
        seq![],
        if interrupted {
            seq![
                ("STOP"@, Style::YellowBold),
                (
                    " interrupted after "@ + decimal(passed) + " test(s), all passed so far ("@
                        + tenths_text(elapsed) + "s)"@,
                    Style::Plain,
                ),
            ]
        } else {
            seq![
                ("OK"@, Style::GreenBold),
                (
                    " "@ + decimal(passed) + " test(s) passed in "@ + tenths_text(elapsed)
                        + "s ("@ + rate + " tests/s)"@,
                    Style::Plain,
                ),
            ]
        },
    ]
}

/// The last words of a run in which nothing failed. `rate` is the number of
/// tests per second as it is written.
pub fn summary_lines(passed: u64, elapsed: Duration, interrupted: bool, rate: &str) -> (res: Vec<
    Vec<Span>,
>)
    ensures
        styled(res@) == summary_text(passed as nat, elapsed@, interrupted, rate@),
{
    let mut lines: Vec<Vec<Span>> = Vec::new();
    push_empty(&mut lines);
    let mut line: Vec<Span> = Vec::new();
    if interrupted {
        push_span(&mut line, "STOP".to_owned(), Style::YellowBold);
        let mut rest = " interrupted after ".to_owned();
        push_decimal(&mut rest, passed as u128);
        rest.append(" test(s), all passed so far (");
        push_tenths(&mut rest, elapsed);
        rest.append("s)");
        push_span(&mut line, rest, Style::Plain);
    } else {
        push_span(&mut line, "OK".to_owned(), Style::GreenBold);
        let mut rest = " ".to_owned();
        push_decimal(&mut rest, passed as u128);
        rest.append(" test(s) passed in ");
        push_tenths(&mut rest, elapsed);
        rest.append("s (");
        rest.append(rate);
        rest.append(" tests/s)");
        push_span(&mut line, rest, Style::Plain);
    }
    let ghost shown = spans(line@);
    push_line(&mut lines, line);
    assert(shown =~= summary_text(passed as nat, elapsed@, interrupted, rate@)[1]);
    assert(styled(lines@) =~= summary_text(passed as nat, elapsed@, interrupted, rate@));
    lines
}

} // verus!
