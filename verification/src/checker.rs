//! The builtin checkers, which compare a program's output with the answer the
//! way testlib's standard checkers do, and the reading of a custom checker's
//! exit code.
//!
//! A checker returns nothing when it accepts and a message when it does not.

use vstd::prelude::*;
use vstd::string::*;

use crate::number::{decimal, int_text, is_digit, parse_long, push_decimal, push_int};
use crate::text::{
    chars_of, debug_form, is_plain, is_white, is_whitespace, lines, lines_of, lossy, lossy_form,
    quote, same_text, string_of, text_if_any, texts, tokens, trim_end, trimmed_end, words,
};

verus! {

/// The checkers that need no program of their own.
#[derive(Debug, Clone, Copy, PartialEq, Eq, Structural)]
pub enum BuiltinChecker {
    /// Tokens, exactly.
    Wcmp,
    /// Lines, each as a sequence of tokens.
    Lcmp,
    /// Integers.
    Ncmp,
    /// Reals within 1e-4.
    Rcmp4,
    /// Reals within 1e-6.
    Rcmp6,
    /// Reals within 1e-9.
    Rcmp9,
    /// Case-insensitive `YES`/`NO` tokens.
    Nyesno,
}

/// The name under which a checker is selected.
pub open spec fn checker_name(c: BuiltinChecker) -> Seq<char> {
    match c {
        BuiltinChecker::Wcmp => "wcmp"@,
        BuiltinChecker::Lcmp => "lcmp"@,
        BuiltinChecker::Ncmp => "ncmp"@,
        BuiltinChecker::Rcmp4 => "rcmp4"@,
        BuiltinChecker::Rcmp6 => "rcmp6"@,
        BuiltinChecker::Rcmp9 => "rcmp9"@,
        BuiltinChecker::Nyesno => "nyesno"@,
    }
}

impl BuiltinChecker {
    /// The name under which this checker is selected.
    pub fn name(self) -> (res: &'static str)
        ensures
            res@ == checker_name(self),
    {
        match self {
            BuiltinChecker::Wcmp => "wcmp",
            BuiltinChecker::Lcmp => "lcmp",
            BuiltinChecker::Ncmp => "ncmp",
            BuiltinChecker::Rcmp4 => "rcmp4",
            BuiltinChecker::Rcmp6 => "rcmp6",
            BuiltinChecker::Rcmp9 => "rcmp9",
            BuiltinChecker::Nyesno => "nyesno",
        }
    }
}

/// Different checkers have different names.
pub proof fn checker_names_are_distinct(a: BuiltinChecker, b: BuiltinChecker)
    requires
        checker_name(a) == checker_name(b),
    ensures
        a == b,
{
    reveal_strlit("wcmp");
    reveal_strlit("lcmp");
    reveal_strlit("ncmp");
    reveal_strlit("rcmp4");
    reveal_strlit("rcmp6");
    reveal_strlit("rcmp9");
    reveal_strlit("nyesno");
    let x = checker_name(a);
    let y = checker_name(b);
    assert(x[0] == y[0]);
    if x.len() == 5 {
        assert(x[4] == y[4]);
    }
}

/// The checker that goes by `name`.
pub fn builtin_by_name(name: &str) -> (res: Option<BuiltinChecker>)
    ensures
        forall|c: BuiltinChecker| res == Some(c) <==> name@ == #[trigger] checker_name(c),
{
    let names = [
        BuiltinChecker::Wcmp,
        BuiltinChecker::Lcmp,
        BuiltinChecker::Ncmp,
        BuiltinChecker::Rcmp4,
        BuiltinChecker::Rcmp6,
        BuiltinChecker::Rcmp9,
        BuiltinChecker::Nyesno,
    ];
    let mut i: usize = 0;
    while i < 7
        invariant
            i <= 7,
            names@ == seq![
                BuiltinChecker::Wcmp,
                BuiltinChecker::Lcmp,
                BuiltinChecker::Ncmp,
                BuiltinChecker::Rcmp4,
                BuiltinChecker::Rcmp6,
                BuiltinChecker::Rcmp9,
                BuiltinChecker::Nyesno,
            ],
            forall|j: int| 0 <= j < i ==> name@ != checker_name(#[trigger] names@[j]),
        decreases 7 - i,
    {
        let c = names[i];
        if same_text(name, c.name()) {
            proof {
                assert forall|d: BuiltinChecker| Some(c) == Some(d) <==> name@
                    == #[trigger] checker_name(d) by {
                    if name@ == checker_name(d) {
                        checker_names_are_distinct(c, d);
                    }
                }
            }
            return Some(c);
        }
        i += 1;
    }
    proof {
        assert forall|d: BuiltinChecker| name@ != #[trigger] checker_name(d) by {
            assert(names@[0] == BuiltinChecker::Wcmp);
            assert(names@[1] == BuiltinChecker::Lcmp);
            assert(names@[2] == BuiltinChecker::Ncmp);
            assert(names@[3] == BuiltinChecker::Rcmp4);
            assert(names@[4] == BuiltinChecker::Rcmp6);
            assert(names@[5] == BuiltinChecker::Rcmp9);
            assert(names@[6] == BuiltinChecker::Nyesno);
        }
    }
    None
}

/// The names of all builtin checkers, in the order in which help lists them.
pub open spec fn builtin_names() -> Seq<Seq<char>> {
    seq!["wcmp"@, "lcmp"@, "ncmp"@, "rcmp4"@, "rcmp6"@, "rcmp9"@, "nyesno"@]
}

// ---------------------------------------------------------------------------
// Shared pieces
// ---------------------------------------------------------------------------

/// A long value with its middle elided, so that it cannot flood a report.
pub open spec fn compressed(s: Seq<char>) -> Seq<char> {
    if s.len() <= 64 {
        s
    } else {
        s.take(30) + "..."@ + s.skip(s.len() - 31)
    }
}

/// Elides the middle of a long value.
pub fn compress(s: &str) -> (res: String)
    ensures
        res@ == compressed(s@),
{
    let chars = chars_of(s);
    let n = chars.len();
    if n <= 64 {
        return s.to_owned();
    }
    let mut res = string_of(&chars[0..30]);
    res.append("...");
    let tail = string_of(&chars[n - 31..n]);
    res.append(tail.as_str());
    assert(res@ =~= compressed(s@));
    res
}

/// Whatever is compressed fits into 64 characters, and what was longer fills them.
pub proof fn compressed_is_bounded(s: Seq<char>)
    ensures
        compressed(s).len() <= 64,
        s.len() >= 64 ==> compressed(s).len() == 64,
{
    reveal_strlit("...");
}

/// A value as messages show it: shortened, between double quotes, and with
/// escapes where it needs them.
pub fn show_value(s: &str) -> (res: String)
    ensures
        res@ == debug_form(compressed(s@)),
        (forall|i: int| 0 <= i < compressed(s@).len() ==> is_plain(#[trigger] compressed(s@)[i]))
            ==> res@ == seq!['"'] + compressed(s@) + seq!['"'],
{
    quote(compress(s).as_str())
}

/// How far two sequences agree, counted from position `i` on.
pub open spec fn agreement_from<T>(a: Seq<T>, b: Seq<T>, i: nat) -> nat
    decreases a.len() - i,
{
    if i < a.len() && i < b.len() && a[i as int] == b[i as int] {
        agreement_from(a, b, i + 1)
    } else {
        i
    }
}

/// The length of the longest common prefix of two sequences.
pub open spec fn agreement<T>(a: Seq<T>, b: Seq<T>) -> nat {
    agreement_from(a, b, 0)
}

/// Up to the agreement two sequences are equal, and there they are not.
pub proof fn lemma_agreement_from<T>(a: Seq<T>, b: Seq<T>, i: nat)
    requires
        i <= a.len(),
        i <= b.len(),
    ensures
        i <= agreement_from(a, b, i) <= a.len(),
        agreement_from(a, b, i) <= b.len(),
        forall|j: int| i <= j < agreement_from(a, b, i) ==> a[j] == b[j],
        agreement_from(a, b, i) < a.len() && agreement_from(a, b, i) < b.len()
            ==> a[agreement_from(a, b, i) as int] != b[agreement_from(a, b, i) as int],
    decreases a.len() - i,
{
    if i < a.len() && i < b.len() && a[i as int] == b[i as int] {
        lemma_agreement_from(a, b, i + 1);
    }
}

/// Two sequences of equal length that agree to the end are equal.
pub proof fn lemma_agreement_equal<T>(a: Seq<T>, b: Seq<T>)
    ensures
        a == b <==> a.len() == b.len() && agreement(a, b) == a.len(),
{
    lemma_agreement_from(a, b, 0);
    if a.len() == b.len() && agreement(a, b) == a.len() {
        assert(a =~= b);
    }
}

/// The length of the longest prefix whose elements all satisfy `good`, counted
/// from position `i` on.
pub open spec fn good_from(s: Seq<Seq<char>>, good: spec_fn(Seq<char>) -> bool, i: nat) -> nat
    decreases s.len() - i,
{
    if i < s.len() && good(s[i as int]) {
        good_from(s, good, i + 1)
    } else {
        i
    }
}

/// The position of the first element that does not satisfy `good`, or the length.
pub open spec fn first_bad(s: Seq<Seq<char>>, good: spec_fn(Seq<char>) -> bool) -> nat {
    good_from(s, good, 0)
}

/// Up to the first bad element all are good, and that one is not.
pub proof fn lemma_good_from(s: Seq<Seq<char>>, good: spec_fn(Seq<char>) -> bool, i: nat)
    requires
        i <= s.len(),
    ensures
        i <= good_from(s, good, i) <= s.len(),
        forall|j: int| i <= j < good_from(s, good, i) ==> good(s[j]),
        good_from(s, good, i) < s.len() ==> !good(s[good_from(s, good, i) as int]),
    decreases s.len() - i,
{
    if i < s.len() && good(s[i as int]) {
        lemma_good_from(s, good, i + 1);
    }
}

/// "`kind` `n` differs: expected ..., found ...", counting from one.
pub open spec fn difference(kind: Seq<char>, i: nat, expected: Seq<char>, found: Seq<char>) -> Seq<
    char,
> {
    kind + " "@ + decimal(i + 1) + " differs: expected "@ + expected + ", found "@ + found
}

/// "expected `n` `kind`(s), found `m`".
pub open spec fn count_difference(kind: Seq<char>, expected: nat, found: nat) -> Seq<char> {
    "expected "@ + decimal(expected) + " "@ + kind + "(s), found "@ + decimal(found)
}

/// The message on two values that differ, each as it is shown.
pub fn difference_message(kind: &str, i: usize, expected: &str, found: &str) -> (res: String)
    ensures
        res@ == difference(kind@, i as nat, expected@, found@),
{
    let mut res = kind.to_owned();
    res.append(" ");
    push_decimal(&mut res, i as u128 + 1);
    res.append(" differs: expected ");
    res.append(expected);
    res.append(", found ");
    res.append(found);
    res
}

/// The message on counts that differ.
pub fn count_message(kind: &str, expected: usize, found: usize) -> (res: String)
    ensures
        res@ == count_difference(kind@, expected as nat, found as nat),
{
    let mut res = "expected ".to_owned();
    push_decimal(&mut res, expected as u128);
    res.append(" ");
    res.append(kind);
    res.append("(s), found ");
    push_decimal(&mut res, found as u128);
    res
}

/// How far two lists of strings agree.
fn common_prefix(a: &Vec<String>, b: &Vec<String>) -> (res: usize)
    ensures
        res == agreement(texts(a@), texts(b@)),
        res <= a@.len(),
        res <= b@.len(),
{
    let mut i: usize = 0;
    while i < a.len() && i < b.len() && a[i] == b[i]
        invariant
            i <= a@.len(),
            i <= b@.len(),
            agreement(texts(a@), texts(b@)) == agreement_from(texts(a@), texts(b@), i as nat),
        decreases a@.len() - i,
    {
        assert(texts(a@)[i as int] == a@[i as int]@);
        assert(texts(b@)[i as int] == b@[i as int]@);
        i += 1;
    }
    proof {
        if i < a@.len() && i < b@.len() {
            assert(texts(a@)[i as int] == a@[i as int]@);
            assert(texts(b@)[i as int] == b@[i as int]@);
        }
    }
    i
}

// ---------------------------------------------------------------------------
// Tokens
// ---------------------------------------------------------------------------

/// What `wcmp` says of an output and an answer.
pub open spec fn tokens_verdict(output: Seq<char>, answer: Seq<char>) -> Option<Seq<char>> {
    let a = words(output);
    let b = words(answer);
    let i = agreement(a, b);
    if i < a.len() && i < b.len() {
        Some(
            difference(
                "token"@,
                i,
                debug_form(compressed(b[i as int])),
                debug_form(compressed(a[i as int])),
            ),
        )
    } else if a.len() != b.len() {
        Some(count_difference("token"@, b.len(), a.len()))
    } else {
        None
    }
}

/// Compares token by token; white space only separates.
pub fn wcmp(output: &str, answer: &str) -> (res: Option<String>)
    ensures
        text_if_any(res) == tokens_verdict(output@, answer@),
{
    let a = tokens(output);
    let b = tokens(answer);
    let i = common_prefix(&a, &b);
    if i < a.len() && i < b.len() {
        let expected = show_value(b[i].as_str());
        let found = show_value(a[i].as_str());
        Some(difference_message("token", i, expected.as_str(), found.as_str()))
    } else if a.len() != b.len() {
        Some(count_message("token", b.len(), a.len()))
    } else {
        None
    }
}

/// `wcmp` accepts exactly the outputs with the tokens of the answer.
pub proof fn token_acceptance(output: Seq<char>, answer: Seq<char>)
    ensures
        tokens_verdict(output, answer) is None <==> words(output) == words(answer),
{
    lemma_agreement_equal(words(output), words(answer));
    lemma_agreement_from(words(output), words(answer), 0);
}

// ---------------------------------------------------------------------------
// Lines
// ---------------------------------------------------------------------------

/// Whether a line holds nothing but white space.
pub open spec fn is_blank(s: Seq<char>) -> bool {
    forall|i: int| 0 <= i < s.len() ==> is_white(#[trigger] s[i])
}

/// `v` without the blank lines at its end.
pub open spec fn without_blank_end(v: Seq<Seq<char>>) -> Seq<Seq<char>>
    decreases v.len(),
{
    if v.len() > 0 && is_blank(v.last()) {
        without_blank_end(v.drop_last())
    } else {
        v
    }
}

/// The lines of a text up to its last line that is not blank.
pub open spec fn content_lines(s: Seq<char>) -> Seq<Seq<char>> {
    without_blank_end(lines_of(s))
}

/// The words of each line.
pub open spec fn line_words(v: Seq<Seq<char>>) -> Seq<Seq<Seq<char>>> {
    v.map_values(|l: Seq<char>| words(l))
}

/// What `lcmp` says of an output and an answer.
pub open spec fn lines_verdict(output: Seq<char>, answer: Seq<char>) -> Option<Seq<char>> {
    let a = content_lines(output);
    let b = content_lines(answer);
    let i = agreement(line_words(a), line_words(b));
    if i < a.len() && i < b.len() {
        Some(
            difference(
                "line"@,
                i,
                debug_form(compressed(trimmed_end(b[i as int]))),
                debug_form(compressed(trimmed_end(a[i as int]))),
            ),
        )
    } else if a.len() != b.len() {
        Some(count_difference("line"@, b.len(), a.len()))
    } else {
        None
    }
}

fn blank(s: &str) -> (res: bool)
    ensures
        res == is_blank(s@),
{
    let chars = chars_of(s);
    let mut i: usize = 0;
    while i < chars.len()
        invariant
            i <= chars@.len(),
            chars@ == s@,
            forall|j: int| 0 <= j < i ==> is_white(#[trigger] chars@[j]),
        decreases chars@.len() - i,
    {
        if !is_whitespace(chars[i]) {
            assert(!is_white(s@[i as int]));
            return false;
        }
        i += 1;
    }
    true
}

/// The lines of a text up to its last line that is not blank.
fn norm(s: &str) -> (res: Vec<String>)
    ensures
        texts(res@) == content_lines(s@),
{
    let mut v = lines(s);
    while v.len() > 0 && blank(v[v.len() - 1].as_str())
        invariant
            without_blank_end(texts(v@)) == content_lines(s@),
        decreases v@.len(),
    {
        assert(texts(v@).last() == v@.last()@);
        let ghost shorter = v@.drop_last();
        assert(texts(shorter) =~= texts(v@).drop_last());
        v.pop();
        assert(v@ =~= shorter);
    }
    proof {
        if v@.len() > 0 {
            assert(texts(v@).last() == v@.last()@);
        }
    }
    v
}

fn same_words(a: &Vec<String>, b: &Vec<String>) -> (res: bool)
    ensures
        res == (texts(a@) == texts(b@)),
{
    let i = common_prefix(a, b);
    proof {
        lemma_agreement_equal(texts(a@), texts(b@));
    }
    a.len() == b.len() && i == a.len()
}

/// How many lines at the start of two lists have the same words.
fn common_lines(a: &Vec<String>, b: &Vec<String>) -> (res: usize)
    ensures
        res == agreement(line_words(texts(a@)), line_words(texts(b@))),
        res <= a@.len(),
        res <= b@.len(),
{
    let ghost x = line_words(texts(a@));
    let ghost y = line_words(texts(b@));
    let mut i: usize = 0;
    while i < a.len() && i < b.len()
        invariant
            i <= a@.len(),
            i <= b@.len(),
            x == line_words(texts(a@)),
            y == line_words(texts(b@)),
            agreement(x, y) == agreement_from(x, y, i as nat),
        decreases a@.len() - i,
    {
        let p = tokens(a[i].as_str());
        let q = tokens(b[i].as_str());
        assert(x[i as int] == words(a@[i as int]@));
        assert(y[i as int] == words(b@[i as int]@));
        if !same_words(&p, &q) {
            return i;
        }
        i += 1;
    }
    i
}

/// Compares line by line, each line as a sequence of tokens; blank lines at
/// the end do not count.
pub fn lcmp(output: &str, answer: &str) -> (res: Option<String>)
    ensures
        text_if_any(res) == lines_verdict(output@, answer@),
{
    let a = norm(output);
    let b = norm(answer);
    let i = common_lines(&a, &b);
    if i < a.len() && i < b.len() {
        let expected = show_value(trim_end(b[i].as_str()).as_str());
        let found = show_value(trim_end(a[i].as_str()).as_str());
        Some(difference_message("line", i, expected.as_str(), found.as_str()))
    } else if a.len() != b.len() {
        Some(count_message("line", b.len(), a.len()))
    } else {
        None
    }
}

/// `lcmp` accepts exactly the outputs whose lines, up to the last one that is
/// not blank, have the tokens of the answer's lines.
pub proof fn line_acceptance(output: Seq<char>, answer: Seq<char>)
    ensures
        lines_verdict(output, answer) is None <==> line_words(content_lines(output)) == line_words(
            content_lines(answer),
        ),
{
    let a = line_words(content_lines(output));
    let b = line_words(content_lines(answer));
    lemma_agreement_equal(a, b);
    lemma_agreement_from(a, b, 0);
}

// ---------------------------------------------------------------------------
// Integers
// ---------------------------------------------------------------------------

/// Whether a token is a 64-bit integer in its one accepted notation.
pub open spec fn is_long(t: Seq<char>) -> bool {
    exists|v: i64| t == #[trigger] int_text(v as int)
}

/// "`who` token `n` is not `what`: ...", counting from one.
pub open spec fn malformed(who: Seq<char>, what: Seq<char>, toks: Seq<Seq<char>>, i: nat) -> Seq<
    char,
> {
    who + "token "@ + decimal(i + 1) + " is not "@ + what + ": "@ + debug_form(
        compressed(toks[i as int]),
    )
}

/// The message on a token that is not what it should be.
pub fn malformed_message(who: &str, what: &str, toks: &Vec<String>, i: usize) -> (res: String)
    requires
        i < toks@.len(),
    ensures
        res@ == malformed(who@, what@, texts(toks@), i as nat),
{
    let mut res = who.to_owned();
    res.append("token ");
    push_decimal(&mut res, i as u128 + 1);
    res.append(" is not ");
    res.append(what);
    res.append(": ");
    let shown = show_value(toks[i].as_str());
    res.append(shown.as_str());
    res
}

/// What `ncmp` says of an output and an answer. An integer has only one
/// accepted notation, so comparing the tokens compares the values.
pub open spec fn integers_verdict(output: Seq<char>, answer: Seq<char>) -> Option<Seq<char>> {
    let a = words(output);
    let b = words(answer);
    let p = first_bad(a, |t: Seq<char>| is_long(t));
    let q = first_bad(b, |t: Seq<char>| is_long(t));
    let i = agreement(a, b);
    if p < a.len() {
        Some(malformed("output "@, "an integer"@, a, p))
    } else if q < b.len() {
        Some("invalid answer (bug in reference?): "@ + malformed("answer "@, "an integer"@, b, q))
    } else if i < a.len() && i < b.len() {
        Some(difference("token"@, i, b[i as int], a[i as int]))
    } else if a.len() != b.len() {
        Some(count_difference("token"@, b.len(), a.len()))
    } else {
        None
    }
}

/// Reads tokens as integers up to the first that is none.
fn parse_longs(toks: &Vec<String>) -> (res: Vec<i64>)
    ensures
        res@.len() == first_bad(texts(toks@), |t: Seq<char>| is_long(t)),
        res@.len() <= toks@.len(),
        forall|j: int|
            0 <= j < res@.len() ==> #[trigger] texts(toks@)[j] == int_text(res@[j] as int),
{
    let ghost all = texts(toks@);
    let ghost good = |t: Seq<char>| is_long(t);
    let mut res: Vec<i64> = Vec::new();
    let mut i: usize = 0;
    while i < toks.len()
        invariant
            i <= toks@.len(),
            all == texts(toks@),
            good == (|t: Seq<char>| is_long(t)),
            res@.len() == i,
            first_bad(all, good) == good_from(all, good, i as nat),
            forall|j: int| 0 <= j < i ==> #[trigger] all[j] == int_text(res@[j] as int),
        decreases toks@.len() - i,
    {
        assert(all[i as int] == toks@[i as int]@);
        match parse_long(toks[i].as_str()) {
            None => {
                assert(!good(all[i as int]));
                return res;
            },
            Some(v) => {
                assert(good(all[i as int]));
                res.push(v);
            },
        }
        i += 1;
    }
    res
}

/// How far two lists of integers agree.
fn common_values(a: &Vec<i64>, b: &Vec<i64>) -> (res: usize)
    ensures
        res == agreement(a@, b@),
        res <= a@.len(),
        res <= b@.len(),
{
    let mut i: usize = 0;
    while i < a.len() && i < b.len() && a[i] == b[i]
        invariant
            i <= a@.len(),
            i <= b@.len(),
            agreement(a@, b@) == agreement_from(a@, b@, i as nat),
        decreases a@.len() - i,
    {
        i += 1;
    }
    i
}

/// Integers and their notations agree equally far.
proof fn lemma_values_agree_like_texts(
    a: Seq<i64>,
    b: Seq<i64>,
    s: Seq<Seq<char>>,
    t: Seq<Seq<char>>,
    i: nat,
)
    requires
        a.len() == s.len(),
        b.len() == t.len(),
        forall|j: int| 0 <= j < s.len() ==> #[trigger] s[j] == int_text(a[j] as int),
        forall|j: int| 0 <= j < t.len() ==> #[trigger] t[j] == int_text(b[j] as int),
        i <= a.len(),
        i <= b.len(),
    ensures
        agreement_from(a, b, i) == agreement_from(s, t, i),
    decreases a.len() - i,
{
    if i < a.len() && i < b.len() {
        assert(s[i as int] == int_text(a[i as int] as int));
        assert(t[i as int] == int_text(b[i as int] as int));
        if s[i as int] == t[i as int] {
            crate::number::lemma_int_text_injective(a[i as int] as int, b[i as int] as int);
        }
        if a[i as int] == b[i as int] {
            lemma_values_agree_like_texts(a, b, s, t, i + 1);
        }
    }
}

fn integer_text(v: i64) -> (res: String)
    ensures
        res@ == int_text(v as int),
{
    let mut res = String::new();
    push_int(&mut res, v);
    assert(res@ =~= int_text(v as int));
    res
}

/// Compares two sequences of 64-bit integers.
pub fn ncmp(output: &str, answer: &str) -> (res: Option<String>)
    ensures
        text_if_any(res) == integers_verdict(output@, answer@),
{
    let s = tokens(output);
    let t = tokens(answer);
    let a = parse_longs(&s);
    if a.len() < s.len() {
        return Some(malformed_message("output ", "an integer", &s, a.len()));
    }
    let b = parse_longs(&t);
    if b.len() < t.len() {
        let mut res = "invalid answer (bug in reference?): ".to_owned();
        let why = malformed_message("answer ", "an integer", &t, b.len());
        res.append(why.as_str());
        return Some(res);
    }
    proof {
        lemma_values_agree_like_texts(a@, b@, texts(s@), texts(t@), 0);
    }
    let i = common_values(&a, &b);
    if i < a.len() && i < b.len() {
        let expected = integer_text(b[i]);
        let found = integer_text(a[i]);
        proof {
            assert(texts(s@)[i + 0] == found@);
            assert(texts(t@)[i + 0] == expected@);
        }
        Some(difference_message("token", i, expected.as_str(), found.as_str()))
    } else if a.len() != b.len() {
        Some(count_message("token", b.len(), a.len()))
    } else {
        None
    }
}

// ---------------------------------------------------------------------------
// Reals
// ---------------------------------------------------------------------------

/// What a real is to testlib's comparison.
#[derive(Debug, Clone, Copy, PartialEq, Eq, Structural)]
pub enum RealKind {
    NotANumber,
    /// Past 10 to the 300th in magnitude, which counts as infinite.
    Huge { positive: bool },
    Ordinary,
}

/// What floating-point arithmetic found of one pair of reals.
pub struct RealPair {
    pub expected_kind: RealKind,
    pub found_kind: RealKind,
    /// The absolute error is within the tolerance.
    pub near: bool,
    /// The found value lies between the expected one made smaller and made
    /// larger by the tolerance, taken as a part of it.
    pub between: bool,
    /// How the two values and the error between them are written.
    pub expected: String,
    pub found: String,
    pub error: String,
}

/// The first position from `i` on that does not hold a digit.
pub open spec fn digits_end(s: Seq<char>, i: int) -> int
    decreases s.len() - i,
{
    if 0 <= i < s.len() && is_digit(s[i]) {
        digits_end(s, i + 1)
    } else {
        i
    }
}

/// The position behind a sign at `i`, if one stands there.
pub open spec fn sign_end(s: Seq<char>, i: int) -> int {
    if 0 <= i < s.len() && (s[i] == '+' || s[i] == '-') {
        i + 1
    } else {
        i
    }
}

/// Whether the characters from `i` on are an exponent: `e` or `E`, an optional
/// sign and at least one digit.
pub open spec fn is_exponent(s: Seq<char>, i: int) -> bool {
    let start = sign_end(s, i + 1);
    &&& 0 <= i < s.len()
    &&& s[i] == 'e' || s[i] == 'E'
    &&& digits_end(s, start) > start
    &&& digits_end(s, start) == s.len()
}

/// Whether a token is a real number: an optional sign, digits with at most one
/// point before, between or behind them, and an optional exponent. Names such
/// as `nan` and `inf` are no numbers.
pub open spec fn is_real(s: Seq<char>) -> bool {
    let start = sign_end(s, 0);
    let whole_end = digits_end(s, start);
    let pointed = whole_end < s.len() && s[whole_end] == '.';
    let end = if pointed {
        digits_end(s, whole_end + 1)
    } else {
        whole_end
    };
    &&& whole_end > start || (pointed && end > whole_end + 1)
    &&& end == s.len() || is_exponent(s, end)
}

fn skip_digits(chars: &[char], start: usize) -> (res: usize)
    requires
        start <= chars@.len(),
    ensures
        res == digits_end(chars@, start as int),
        start <= res <= chars@.len(),
{
    let mut i: usize = start;
    while i < chars.len() && '0' <= chars[i] && chars[i] <= '9'
        invariant
            start <= i <= chars@.len(),
            digits_end(chars@, start as int) == digits_end(chars@, i as int),
        decreases chars@.len() - i,
    {
        i += 1;
    }
    i
}

fn skip_sign(chars: &[char], i: usize) -> (res: usize)
    requires
        i <= chars@.len(),
    ensures
        res == sign_end(chars@, i as int),
        i <= res <= chars@.len(),
{
    if i < chars.len() && (chars[i] == '+' || chars[i] == '-') {
        i + 1
    } else {
        i
    }
}

/// Whether a token is a real number.
pub fn is_real_token(t: &str) -> (res: bool)
    ensures
        res == is_real(t@),
{
    let chars = chars_of(t);
    let n = chars.len();
    let start = skip_sign(&chars, 0);
    let whole_end = skip_digits(&chars, start);
    let pointed = whole_end < n && chars[whole_end] == '.';
    let end = if pointed {
        skip_digits(&chars, whole_end + 1)
    } else {
        whole_end
    };
    if !(whole_end > start || (pointed && end > whole_end + 1)) {
        return false;
    }
    if end == n {
        return true;
    }
    if chars[end] != 'e' && chars[end] != 'E' {
        return false;
    }
    let exp_start = skip_sign(&chars, end + 1);
    let exp_end = skip_digits(&chars, exp_start);
    exp_end > exp_start && exp_end == n
}

/// Whether the found value is close enough to the expected one: within an
/// absolute or a relative error. An infinite value is close to those of its
/// sign, and no number to no number.
pub open spec fn is_close(pair: RealPair) -> bool {
    match pair.expected_kind {
        RealKind::NotANumber => pair.found_kind == RealKind::NotANumber,
        RealKind::Huge { positive } => pair.found_kind == (RealKind::Huge { positive }),
        RealKind::Ordinary => pair.found_kind == RealKind::Ordinary && (pair.near || pair.between),
    }
}

/// Whether the found value is close enough to the expected one.
pub fn double_compare(pair: &RealPair) -> (res: bool)
    ensures
        res == is_close(*pair),
{
    match pair.expected_kind {
        RealKind::NotANumber => pair.found_kind == RealKind::NotANumber,
        RealKind::Huge { positive } => pair.found_kind == RealKind::Huge { positive },
        RealKind::Ordinary => pair.found_kind == RealKind::Ordinary && (pair.near || pair.between),
    }
}

/// How far a run of pairs is close, counted from position `i` on.
pub open spec fn close_from(pairs: Seq<RealPair>, i: nat) -> nat
    decreases pairs.len() - i,
{
    if i < pairs.len() && is_close(pairs[i as int]) {
        close_from(pairs, i + 1)
    } else {
        i
    }
}

/// Whether `rcmp` gets as far as comparing values: both texts hold nothing but
/// reals, and equally many.
pub open spec fn reals_comparable(output: Seq<char>, answer: Seq<char>) -> bool {
    let a = words(output);
    let b = words(answer);
    &&& forall|i: int| 0 <= i < a.len() ==> is_real(#[trigger] a[i])
    &&& forall|i: int| 0 <= i < b.len() ==> is_real(#[trigger] b[i])
    &&& a.len() == b.len()
}

/// What `rcmp` says of an output and an answer, given what arithmetic found of
/// each pair of values. `eps` is how the tolerance is written.
pub open spec fn reals_verdict(
    output: Seq<char>,
    answer: Seq<char>,
    eps: Seq<char>,
    pairs: Seq<RealPair>,
) -> Option<Seq<char>> {
    let a = words(output);
    let b = words(answer);
    let p = first_bad(a, |t: Seq<char>| is_real(t));
    let q = first_bad(b, |t: Seq<char>| is_real(t));
    let i = close_from(pairs, 0);
    if p < a.len() {
        Some(malformed("output "@, "a number"@, a, p))
    } else if q < b.len() {
        Some("invalid answer (bug in reference?): "@ + malformed("answer "@, "a number"@, b, q))
    } else if a.len() != b.len() {
        Some(count_difference("token"@, b.len(), a.len()))
    } else if i < pairs.len() {
        let pair = pairs[i as int];
        Some(
            difference("token"@, i, pair.expected@, pair.found@) + " (error "@ + pair.error@
                + " > "@ + eps + ")"@,
        )
    } else {
        None
    }
}

/// The number of tokens before the first that is no real.
fn leading_reals(toks: &Vec<String>) -> (res: usize)
    ensures
        res == first_bad(texts(toks@), |t: Seq<char>| is_real(t)),
        res <= toks@.len(),
{
    let ghost all = texts(toks@);
    let ghost good = |t: Seq<char>| is_real(t);
    let mut i: usize = 0;
    while i < toks.len()
        invariant
            i <= toks@.len(),
            all == texts(toks@),
            good == (|t: Seq<char>| is_real(t)),
            first_bad(all, good) == good_from(all, good, i as nat),
        decreases toks@.len() - i,
    {
        assert(all[i as int] == toks@[i as int]@);
        if !is_real_token(toks[i].as_str()) {
            assert(!good(all[i as int]));
            return i;
        }
        assert(good(all[i as int]));
        i += 1;
    }
    i
}

fn leading_close(pairs: &[RealPair]) -> (res: usize)
    ensures
        res == close_from(pairs@, 0),
        res <= pairs@.len(),
{
    let mut i: usize = 0;
    while i < pairs.len() && double_compare(&pairs[i])
        invariant
            i <= pairs@.len(),
            close_from(pairs@, 0) == close_from(pairs@, i as nat),
        decreases pairs@.len() - i,
    {
        i += 1;
    }
    i
}

proof fn lemma_all_real(s: Seq<Seq<char>>)
    ensures
        first_bad(s, |t: Seq<char>| is_real(t)) == s.len() <==> forall|i: int|
            0 <= i < s.len() ==> is_real(#[trigger] s[i]),
{
    let good = |t: Seq<char>| is_real(t);
    lemma_good_from(s, good, 0);
    let n = first_bad(s, good);
    if n == s.len() {
        assert forall|i: int| 0 <= i < s.len() implies is_real(#[trigger] s[i]) by {
            assert(good(s[i]));
        }
    } else {
        assert(!good(s[n as int]));
    }
}

/// The values that a checker compares, the expected and the found ones: all of
/// them where it is a checker of reals and gets that far, and none otherwise.
pub fn reals_to_compare(c: BuiltinChecker, output: &str, answer: &str) -> (res: (
    Vec<String>,
    Vec<String>,
))
    ensures
        if compares_reals(c) && reals_comparable(output@, answer@) {
            &&& texts(res.0@) == words(answer@)
            &&& texts(res.1@) == words(output@)
        } else {
            &&& res.0@.len() == 0
            &&& res.1@.len() == 0
        },
{
    let is_rcmp = match c {
        BuiltinChecker::Rcmp4 | BuiltinChecker::Rcmp6 | BuiltinChecker::Rcmp9 => true,
        _ => false,
    };
    let found = tokens(output);
    let expected = tokens(answer);
    proof {
        lemma_all_real(words(output@));
        lemma_all_real(words(answer@));
    }
    if is_rcmp && leading_reals(&found) == found.len() && leading_reals(&expected)
        == expected.len() && found.len() == expected.len() {
        (expected, found)
    } else {
        (Vec::new(), Vec::new())
    }
}

/// Compares two sequences of reals, given what arithmetic found of each pair.
pub fn rcmp(output: &str, answer: &str, eps: &str, pairs: &[RealPair]) -> (res: Option<String>)
    requires
        reals_comparable(output@, answer@) ==> pairs@.len() == words(output@).len(),
    ensures
        text_if_any(res) == reals_verdict(output@, answer@, eps@, pairs@),
{
    let a = tokens(output);
    let b = tokens(answer);
    let p = leading_reals(&a);
    if p < a.len() {
        return Some(malformed_message("output ", "a number", &a, p));
    }
    let q = leading_reals(&b);
    if q < b.len() {
        let mut res = "invalid answer (bug in reference?): ".to_owned();
        let why = malformed_message("answer ", "a number", &b, q);
        res.append(why.as_str());
        return Some(res);
    }
    if a.len() != b.len() {
        return Some(count_message("token", b.len(), a.len()));
    }
    let i = leading_close(pairs);
    if i < pairs.len() {
        let pair = &pairs[i];
        let mut res = difference_message(
            "token",
            i,
            pair.expected.as_str(),
            pair.found.as_str(),
        );
        res.append(" (error ");
        res.append(pair.error.as_str());
        res.append(" > ");
        res.append(eps);
        res.append(")");
        return Some(res);
    }
    None
}

// ---------------------------------------------------------------------------
// YES and NO
// ---------------------------------------------------------------------------

/// A character with the letters `a` to `z` turned into capitals.
pub open spec fn upper_char(c: char) -> char {
    if 'a' <= c <= 'z' {
        (c as int - 32) as char
    } else {
        c
    }
}

/// A text with the letters `a` to `z` turned into capitals.
pub open spec fn upper(s: Seq<char>) -> Seq<char> {
    s.map_values(|c: char| upper_char(c))
}

/// The tokens of a text in capitals.
pub open spec fn upper_words(s: Seq<char>) -> Seq<Seq<char>> {
    words(s).map_values(|t: Seq<char>| upper(t))
}

pub open spec fn is_yes_or_no(t: Seq<char>) -> bool {
    t == "YES"@ || t == "NO"@
}

/// What `nyesno` says of an output and an answer.
pub open spec fn yes_no_verdict(output: Seq<char>, answer: Seq<char>) -> Option<Seq<char>> {
    let a = upper_words(output);
    let b = upper_words(answer);
    let q = first_bad(b, |t: Seq<char>| is_yes_or_no(t));
    let p = first_bad(a, |t: Seq<char>| is_yes_or_no(t));
    let i = agreement(a, b);
    if q < b.len() {
        Some("invalid answer (bug in reference?): "@ + malformed(""@, "YES/NO"@, b, q))
    } else if p < a.len() {
        Some(malformed(""@, "YES/NO"@, a, p))
    } else if i < a.len() && i < b.len() {
        Some(difference("token"@, i, b[i as int], a[i as int]))
    } else if a.len() != b.len() {
        Some(count_difference("token"@, b.len(), a.len()))
    } else {
        None
    }
}

fn to_upper(s: &str) -> (res: String)
    ensures
        res@ == upper(s@),
{
    let chars = chars_of(s);
    let mut res = String::new();
    let mut i: usize = 0;
    while i < chars.len()
        invariant
            i <= chars@.len(),
            chars@ == s@,
            res@ =~= upper(s@).take(i as int),
        decreases chars@.len() - i,
    {
        let c = chars[i];
        if 'a' <= c && c <= 'z' {
            let code: u8 = (c as u32 - 32) as u8;
            res.push(code as char);
        } else {
            res.push(c);
        }
        i += 1;
    }
    assert(res@ =~= upper(s@));
    res
}

/// The tokens of a text in capitals.
fn upper_tokens(s: &str) -> (res: Vec<String>)
    ensures
        texts(res@) == upper_words(s@),
{
    let toks = tokens(s);
    let mut res: Vec<String> = Vec::new();
    let mut i: usize = 0;
    while i < toks.len()
        invariant
            i <= toks@.len(),
            texts(toks@) == words(s@),
            texts(res@) =~= upper_words(s@).take(i as int),
        decreases toks@.len() - i,
    {
        let t = to_upper(toks[i].as_str());
        assert(words(s@)[i as int] == toks@[i as int]@);
        let ghost before = texts(res@);
        res.push(t);
        assert(texts(res@) =~= before.push(t@));
        i += 1;
    }
    assert(texts(res@) =~= upper_words(s@));
    res
}

/// The number of tokens before the first that is neither `YES` nor `NO`.
fn leading_yes_no(toks: &Vec<String>) -> (res: usize)
    ensures
        res == first_bad(texts(toks@), |t: Seq<char>| is_yes_or_no(t)),
        res <= toks@.len(),
{
    let ghost all = texts(toks@);
    let ghost good = |t: Seq<char>| is_yes_or_no(t);
    let mut i: usize = 0;
    while i < toks.len()
        invariant
            i <= toks@.len(),
            all == texts(toks@),
            good == (|t: Seq<char>| is_yes_or_no(t)),
            first_bad(all, good) == good_from(all, good, i as nat),
        decreases toks@.len() - i,
    {
        assert(all[i as int] == toks@[i as int]@);
        if !same_text(toks[i].as_str(), "YES") && !same_text(toks[i].as_str(), "NO") {
            assert(!good(all[i as int]));
            return i;
        }
        assert(good(all[i as int]));
        i += 1;
    }
    i
}

/// Compares two sequences of case-insensitive `YES`/`NO` tokens.
pub fn nyesno(output: &str, answer: &str) -> (res: Option<String>)
    ensures
        text_if_any(res) == yes_no_verdict(output@, answer@),
{
    let a = upper_tokens(output);
    let b = upper_tokens(answer);
    let q = leading_yes_no(&b);
    if q < b.len() {
        let mut res = "invalid answer (bug in reference?): ".to_owned();
        let why = malformed_message("", "YES/NO", &b, q);
        res.append(why.as_str());
        return Some(res);
    }
    let p = leading_yes_no(&a);
    if p < a.len() {
        return Some(malformed_message("", "YES/NO", &a, p));
    }
    let i = common_prefix(&a, &b);
    if i < a.len() && i < b.len() {
        return Some(difference_message("token", i, b[i].as_str(), a[i].as_str()));
    }
    if a.len() != b.len() {
        return Some(count_message("token", b.len(), a.len()));
    }
    None
}

// ---------------------------------------------------------------------------
// Dispatch
// ---------------------------------------------------------------------------

/// Whether a checker compares reals.
pub open spec fn compares_reals(c: BuiltinChecker) -> bool {
    c is Rcmp4 || c is Rcmp6 || c is Rcmp9
}

/// How the tolerance of a checker of reals is written.
pub open spec fn tolerance_text(c: BuiltinChecker) -> Seq<char> {
    match c {
        BuiltinChecker::Rcmp4 => "1.000e-4"@,
        BuiltinChecker::Rcmp6 => "1.000e-6"@,
        _ => "1.000e-9"@,
    }
}

/// What a builtin checker says of an output and an answer. `pairs` matters to
/// the checkers of reals alone.
pub open spec fn check_verdict(
    c: BuiltinChecker,
    output: Seq<char>,
    answer: Seq<char>,
    pairs: Seq<RealPair>,
) -> Option<Seq<char>> {
    match c {
        BuiltinChecker::Wcmp => tokens_verdict(output, answer),
        BuiltinChecker::Lcmp => lines_verdict(output, answer),
        BuiltinChecker::Ncmp => integers_verdict(output, answer),
        BuiltinChecker::Nyesno => yes_no_verdict(output, answer),
        _ => reals_verdict(output, answer, tolerance_text(c), pairs),
    }
}

/// Whether `pairs` holds what a checker needs to compare these two texts: one
/// entry per pair of values, if it is a checker of reals and gets that far.
pub open spec fn pairs_fit(
    c: BuiltinChecker,
    output: Seq<char>,
    answer: Seq<char>,
    pairs: Seq<RealPair>,
) -> bool {
    compares_reals(c) && reals_comparable(output, answer) ==> pairs.len() == words(output).len()
}

/// The text that a checker is given for a program's output file, of which
/// `contents` is what could be read, if it could.
pub fn read_for_check(contents: &Option<Vec<u8>>) -> (res: String)
    ensures
        res@ == (match *contents {
            Some(bytes) => lossy_form(bytes@),
            None => ""@,
        }),
{
    match contents {
        Some(bytes) => lossy(bytes),
        None => "".to_owned(),
    }
}

impl BuiltinChecker {
    /// The tolerance of a checker of reals, as messages write it.
    pub fn tolerance(self) -> (res: &'static str)
        ensures
            res@ == tolerance_text(self),
    {
        match self {
            BuiltinChecker::Rcmp4 => "1.000e-4",
            BuiltinChecker::Rcmp6 => "1.000e-6",
            _ => "1.000e-9",
        }
    }

    /// Compares a program's output with the answer: `None` accepts, a message
    /// says why not. `pairs` holds what arithmetic found of each pair of
    /// reals; only the checkers of reals look at it.
    pub fn check(self, output: &str, answer: &str, pairs: &[RealPair]) -> (res: Option<String>)
        requires
            pairs_fit(self, output@, answer@, pairs@),
        ensures
            text_if_any(res) == check_verdict(self, output@, answer@, pairs@),
    {
        match self {
            BuiltinChecker::Wcmp => wcmp(output, answer),
            BuiltinChecker::Lcmp => lcmp(output, answer),
            BuiltinChecker::Ncmp => ncmp(output, answer),
            BuiltinChecker::Nyesno => nyesno(output, answer),
            _ => rcmp(output, answer, self.tolerance(), pairs),
        }
    }
}

/// What a custom checker's exit code means.
#[derive(Debug, Clone, Copy, PartialEq, Eq, Structural)]
pub enum CustomOutcome {
    /// The output is accepted.
    Ac,
    /// The output is wrong.
    Wa,
    /// The checker itself failed.
    Failed,
}

/// testlib's exit codes: 0 accepts, 1 and 2 reject, anything else is a failure
/// of the checker.
pub open spec fn custom_outcome(code: int) -> CustomOutcome {
    if code == 0 {
        CustomOutcome::Ac
    } else if code == 1 || code == 2 {
        CustomOutcome::Wa
    } else {
        CustomOutcome::Failed
    }
}

/// Reads a custom checker's exit code.
pub fn interpret_custom_exit(code: i32) -> (res: CustomOutcome)
    ensures
        res == custom_outcome(code as int),
{
    match code {
        0 => CustomOutcome::Ac,
        1 | 2 => CustomOutcome::Wa,
        _ => CustomOutcome::Failed,
    }
}

} // verus!
