//! What the checkers say of texts that are put together from known parts, and
//! what their messages tell.

use vstd::prelude::*;
use vstd::string::*;

use crate::checker::{
    agreement, close_from, compressed, content_lines, digits_end, double_compare, first_bad,
    integers_verdict, interpret_custom_exit, is_blank, is_close, is_exponent, is_long, is_real,
    is_real_token, is_yes_or_no, lemma_agreement_from, lemma_good_from, line_acceptance, line_words,
    lines_verdict, read_for_check, reals_comparable, reals_to_compare, reals_verdict, sign_end,
    token_acceptance, tokens_verdict, tolerance_text, upper, upper_char, upper_words,
    without_blank_end, yes_no_verdict, BuiltinChecker, CustomOutcome, RealPair,
};
use crate::checker_laws::{integer_acceptance, real_acceptance, yes_no_acceptance};
use crate::number::{decimal, int_text, is_digit, lemma_int_text_injective};
use crate::text::{
    debug_form, is_white, joined, lines_of, lossy_form, text_if_any, texts, trimmed_end, words,
};
use crate::text_laws::{
    are_words, is_all_white, joining_is_piecewise, lines_end_at_line_feeds, words_are_found_again,
};

verus! {

// ---------------------------------------------------------------------------
// The notation of reals
// ---------------------------------------------------------------------------

/// Whether a text is digits throughout, or empty.
pub open spec fn only_digits(s: Seq<char>) -> bool {
    forall|i: int| 0 <= i < s.len() ==> '0' <= #[trigger] s[i] <= '9'
}

/// Whether a text is a sign, or empty.
pub open spec fn at_most_a_sign(s: Seq<char>) -> bool {
    s.len() == 0 || (s.len() == 1 && (s[0] == '+' || s[0] == '-'))
}

/// Whether a real can be made of these parts: a sign or none, digits, a point
/// or none, digits behind the point, and an exponent or none, which is a mark, a
/// sign or none, and digits. At least one digit stands around the point, and
/// at least one behind a mark. How long the runs of digits are does not matter.
pub open spec fn are_real_parts(
    sign: Seq<char>,
    whole: Seq<char>,
    point: Seq<char>,
    fraction: Seq<char>,
    mark: Seq<char>,
    exponent_sign: Seq<char>,
    exponent: Seq<char>,
) -> bool {
    &&& at_most_a_sign(sign)
    &&& only_digits(whole)
    &&& point.len() == 0 || (point.len() == 1 && point[0] == '.')
    &&& only_digits(fraction)
    &&& point.len() == 0 ==> fraction.len() == 0
    &&& whole.len() + fraction.len() > 0
    &&& mark.len() == 0 || (mark.len() == 1 && (mark[0] == 'e' || mark[0] == 'E'))
    &&& at_most_a_sign(exponent_sign)
    &&& only_digits(exponent)
    &&& mark.len() == 0 ==> exponent_sign.len() == 0 && exponent.len() == 0
    &&& mark.len() > 0 ==> exponent.len() > 0
}

proof fn lemma_digits_stop(s: Seq<char>, i: int, k: int)
    requires
        0 <= i <= k <= s.len(),
        forall|j: int| i <= j < k ==> '0' <= #[trigger] s[j] <= '9',
        k == s.len() || !('0' <= s[k] <= '9'),
    ensures
        digits_end(s, i) == k,
    decreases k - i,
{
    if i < k {
        assert('0' <= s[i] <= '9');
        lemma_digits_stop(s, i + 1, k);
    }
}

/// What is put together from the parts of a real is a real, whatever its length.
pub proof fn whatever_has_the_parts_of_a_real_is_one(
    sign: Seq<char>,
    whole: Seq<char>,
    point: Seq<char>,
    fraction: Seq<char>,
    mark: Seq<char>,
    exponent_sign: Seq<char>,
    exponent: Seq<char>,
)
    requires
        are_real_parts(sign, whole, point, fraction, mark, exponent_sign, exponent),
    ensures
        is_real(sign + whole + point + fraction + mark + exponent_sign + exponent),
{
    let s = sign + whole + point + fraction + mark + exponent_sign + exponent;
    let a = sign.len() as int;
    let b = a + whole.len();
    let c = b + point.len();
    let d = c + fraction.len();
    let e = d + mark.len();
    let f = e + exponent_sign.len();
    assert(f + exponent.len() == s.len());
    assert forall|j: int| a <= j < b implies '0' <= #[trigger] s[j] <= '9' by {
        assert(s[j] == whole[j - a]);
    }
    assert forall|j: int| c <= j < d implies '0' <= #[trigger] s[j] <= '9' by {
        assert(s[j] == fraction[j - c]);
    }
    assert forall|j: int| f <= j < s.len() implies '0' <= #[trigger] s[j] <= '9' by {
        assert(s[j] == exponent[j - f]);
    }
    if sign.len() > 0 {
        assert(s[0] == sign[0]);
    }
    if point.len() > 0 {
        assert(s[b] == point[0]);
    }
    if mark.len() > 0 {
        assert(s[d] == mark[0]);
        if exponent_sign.len() > 0 {
            assert(s[e] == exponent_sign[0]);
        } else {
            assert('0' <= s[e] <= '9');
        }
        lemma_digits_stop(s, f, s.len() as int);
        assert(sign_end(s, d + 1) == f);
        assert(is_exponent(s, d));
    }
    if a == 0 {
        if whole.len() > 0 {
            assert('0' <= s[0] <= '9');
        }
    }
    assert(sign_end(s, 0) == a);
    lemma_digits_stop(s, a, b);
    if point.len() > 0 {
        lemma_digits_stop(s, c, d);
    }
}

proof fn lemma_digits_found(s: Seq<char>, i: int)
    requires
        0 <= i <= s.len(),
    ensures
        i <= digits_end(s, i) <= s.len(),
        only_digits(s.subrange(i, digits_end(s, i))),
    decreases s.len() - i,
{
    if i < s.len() && is_digit(s[i]) {
        lemma_digits_found(s, i + 1);
        let k = digits_end(s, i);
        let t = s.subrange(i, k);
        assert forall|j: int| 0 <= j < t.len() implies '0' <= #[trigger] t[j] <= '9' by {
            if j > 0 {
                assert(t[j] == s.subrange(i + 1, k)[j - 1]);
            }
        }
    }
}

/// A token is a real exactly when it is put together from the parts of one.
pub proof fn reals_have_their_parts(t: &str, res: bool)
    requires
        call_ensures(is_real_token, (t,), res),
    ensures
        res <==> exists|
            sign: Seq<char>,
            whole: Seq<char>,
            point: Seq<char>,
            fraction: Seq<char>,
            mark: Seq<char>,
            exponent_sign: Seq<char>,
            exponent: Seq<char>,
        |
            #[trigger] are_real_parts(
                sign,
                whole,
                point,
                fraction,
                mark,
                exponent_sign,
                exponent,
            ) && t@ == sign + whole + point + fraction + mark + exponent_sign + exponent,
{
    let s = t@;
    if is_real(s) {
        let a = sign_end(s, 0);
        lemma_digits_found(s, a);
        let b = digits_end(s, a);
        let c = if b < s.len() && s[b] == '.' {
            b + 1
        } else {
            b
        };
        if c > b {
            lemma_digits_found(s, c);
        }
        let d = if c > b {
            digits_end(s, c)
        } else {
            b
        };
        let e = if d < s.len() {
            d + 1
        } else {
            d
        };
        let f = if d < s.len() {
            sign_end(s, e)
        } else {
            d
        };
        if d < s.len() {
            lemma_digits_found(s, f);
        }
        let sign = s.subrange(0, a);
        let whole = s.subrange(a, b);
        let point = s.subrange(b, c);
        let fraction = s.subrange(c, d);
        let mark = s.subrange(d, e);
        let exponent_sign = s.subrange(e, f);
        let exponent = s.subrange(f, s.len() as int);
        assert(s =~= sign + whole + point + fraction + mark + exponent_sign + exponent);
        assert(are_real_parts(sign, whole, point, fraction, mark, exponent_sign, exponent));
    }
    if exists|
        sign: Seq<char>,
        whole: Seq<char>,
        point: Seq<char>,
        fraction: Seq<char>,
        mark: Seq<char>,
        exponent_sign: Seq<char>,
        exponent: Seq<char>,
    |
        #[trigger] are_real_parts(
            sign,
            whole,
            point,
            fraction,
            mark,
            exponent_sign,
            exponent,
        ) && s == sign + whole + point + fraction + mark + exponent_sign + exponent {
        let (sign, whole, point, fraction, mark, exponent_sign, exponent) = choose|
            sign: Seq<char>,
            whole: Seq<char>,
            point: Seq<char>,
            fraction: Seq<char>,
            mark: Seq<char>,
            exponent_sign: Seq<char>,
            exponent: Seq<char>,
        |
            #[trigger] are_real_parts(
                sign,
                whole,
                point,
                fraction,
                mark,
                exponent_sign,
                exponent,
            ) && s == sign + whole + point + fraction + mark + exponent_sign + exponent;
        whatever_has_the_parts_of_a_real_is_one(
            sign,
            whole,
            point,
            fraction,
            mark,
            exponent_sign,
            exponent,
        );
    }
}

// ---------------------------------------------------------------------------
// Acceptance
// ---------------------------------------------------------------------------

/// Tokens are compared whole: an output is accepted for an answer exactly when
/// it has the same tokens in the same order, none more and none fewer.
pub proof fn tokens_are_compared_whole(
    output: &str,
    answer: &str,
    pairs: &[RealPair],
    a: Seq<Seq<char>>,
    b: Seq<Seq<char>>,
    res: Option<String>,
)
    requires
        a == words(output@),
        b == words(answer@),
        call_ensures(BuiltinChecker::check, (BuiltinChecker::Wcmp, output, answer, pairs), res),
    ensures
        res is None <==> a == b,
{
    token_acceptance(output@, answer@);
}

/// The notations of integers.
pub open spec fn notations(v: Seq<i64>) -> Seq<Seq<char>> {
    v.map_values(|x: i64| int_text(x as int))
}

proof fn lemma_same_notations(a: Seq<i64>, b: Seq<i64>)
    ensures
        notations(a) == notations(b) <==> a == b,
        forall|i: int| 0 <= i < a.len() ==> is_long(#[trigger] notations(a)[i]),
{
    let s = notations(a);
    let t = notations(b);
    assert forall|i: int| 0 <= i < a.len() implies is_long(#[trigger] s[i]) by {
        assert(s[i] == int_text(a[i] as int));
    }
    if s == t {
        assert(a.len() == s.len() && b.len() == t.len());
        assert forall|i: int| 0 <= i < a.len() implies a[i] == b[i] by {
            assert(s[i] == t[i]);
            lemma_int_text_injective(a[i] as int, b[i] as int);
        }
        assert(a =~= b);
    }
}

/// Whether a text is the notation of a 64-bit integer.
pub open spec fn denotes_an_integer(t: Seq<char>) -> bool {
    exists|v: int| i64::MIN <= v <= i64::MAX && t == #[trigger] int_text(v)
}

proof fn lemma_long_denotes(t: Seq<char>)
    ensures
        is_long(t) ==> denotes_an_integer(t),
{
    if is_long(t) {
        let v = choose|v: i64| t == #[trigger] int_text(v as int);
        assert(t == int_text(v as int));
    }
}

/// Integers are compared by value: an output of integers is accepted for an
/// answer of integers exactly when they are the same ones.
pub proof fn integers_are_compared_by_value(
    output: &str,
    answer: &str,
    pairs: &[RealPair],
    a: Seq<i64>,
    b: Seq<i64>,
    res: Option<String>,
)
    requires
        notations(a) == words(output@),
        notations(b) == words(answer@),
        call_ensures(BuiltinChecker::check, (BuiltinChecker::Ncmp, output, answer, pairs), res),
    ensures
        res is None <==> a == b,
{
    lemma_same_notations(a, b);
    integer_acceptance(output@, answer@);
}

/// A token that is no 64-bit integer in its one notation is never accepted, in
/// the output or in the answer.
pub proof fn only_integers_are_accepted_as_integers(
    output: &str,
    answer: &str,
    pairs: &[RealPair],
    res: Option<String>,
    i: int,
)
    requires
        call_ensures(BuiltinChecker::check, (BuiltinChecker::Ncmp, output, answer, pairs), res),
        ({
            ||| 0 <= i < words(output@).len() && !denotes_an_integer(words(output@)[i])
            ||| 0 <= i < words(answer@).len() && !denotes_an_integer(words(answer@)[i])
        }),
    ensures
        res is Some,
{
    integer_acceptance(output@, answer@);
    if res is None {
        assert(is_long(words(output@)[i]));
        lemma_long_denotes(words(output@)[i]);
    }
}

/// What a token says, whatever the case of its letters.
pub open spec fn said(t: Seq<char>) -> Option<bool> {
    if t.len() == 3 && (t[0] == 'y' || t[0] == 'Y') && (t[1] == 'e' || t[1] == 'E') && (t[2] == 's'
        || t[2] == 'S') {
        Some(true)
    } else if t.len() == 2 && (t[0] == 'n' || t[0] == 'N') && (t[1] == 'o' || t[1] == 'O') {
        Some(false)
    } else {
        None
    }
}

proof fn lemma_capital(c: char, small: char, capital: char)
    requires
        'A' <= capital <= 'Z',
        small as int == capital as int + 32,
    ensures
        upper_char(c) == capital <==> c == small || c == capital,
{
    if 'a' <= c <= 'z' {
        assert(upper_char(c) as int == c as int - 32);
    }
}

proof fn lemma_said(t: Seq<char>)
    ensures
        said(t) == Some(true) <==> upper(t) == "YES"@,
        said(t) == Some(false) <==> upper(t) == "NO"@,
{
    reveal_strlit("YES");
    reveal_strlit("NO");
    assert("YES"@.len() == 3 && "YES"@[0] == 'Y' && "YES"@[1] == 'E' && "YES"@[2] == 'S');
    assert("NO"@.len() == 2 && "NO"@[0] == 'N' && "NO"@[1] == 'O');
    let u = upper(t);
    assert(u.len() == t.len());
    assert forall|i: int| 0 <= i < t.len() implies #[trigger] u[i] == upper_char(t[i]) by {}
    if t.len() == 3 {
        lemma_capital(t[0], 'y', 'Y');
        lemma_capital(t[1], 'e', 'E');
        lemma_capital(t[2], 's', 'S');
    }
    if t.len() == 2 {
        lemma_capital(t[0], 'n', 'N');
        lemma_capital(t[1], 'o', 'O');
    }
    if u == "YES"@ {
        assert(u[0] == 'Y' && u[1] == 'E' && u[2] == 'S');
    }
    if u == "NO"@ {
        assert(u[0] == 'N' && u[1] == 'O');
    }
    if said(t) == Some(true) {
        assert(u =~= "YES"@);
    }
    if said(t) == Some(false) {
        assert(u =~= "NO"@);
    }
}

/// `YES` and `NO` are compared by what they say: an output is accepted for an
/// answer exactly when both say nothing else, and the same in the same order.
pub proof fn answers_are_compared_by_what_they_say(
    output: &str,
    answer: &str,
    pairs: &[RealPair],
    a: Seq<Seq<char>>,
    b: Seq<Seq<char>>,
    res: Option<String>,
)
    requires
        a == words(output@),
        b == words(answer@),
        call_ensures(BuiltinChecker::check, (BuiltinChecker::Nyesno, output, answer, pairs), res),
    ensures
        res is None <==> a.len() == b.len() && forall|i: int|
            0 <= i < a.len() ==> said(#[trigger] a[i]) is Some && said(a[i]) == said(b[i]),
{
    yes_no_acceptance(output@, answer@);
    reveal_strlit("YES");
    reveal_strlit("NO");
    let u = upper_words(output@);
    let w = upper_words(answer@);
    if res is None {
        assert forall|i: int| 0 <= i < a.len() implies said(#[trigger] a[i]) is Some && said(a[i])
            == said(b[i]) by {
            lemma_said(a[i]);
            lemma_said(b[i]);
            assert(is_yes_or_no(u[i]));
            assert(u[i] == w[i]);
        }
    }
    if a.len() == b.len() && forall|i: int|
        0 <= i < a.len() ==> said(#[trigger] a[i]) is Some && said(a[i]) == said(b[i]) {
        assert forall|i: int| 0 <= i < u.len() implies is_yes_or_no(#[trigger] u[i]) && u[i]
            == w[i] by {
            assert(said(a[i]) is Some);
            lemma_said(a[i]);
            lemma_said(b[i]);
        }
        assert(u =~= w);
    }
}

/// Reals are compared one by one: an output is accepted for an answer exactly
/// when both hold nothing but reals, equally many, and every pair is close, that
/// is of one kind and, where both are ordinary numbers, within an absolute or a
/// relative error.
pub proof fn reals_are_compared_one_by_one(
    c: BuiltinChecker,
    output: &str,
    answer: &str,
    pairs: &[RealPair],
    a: Seq<Seq<char>>,
    b: Seq<Seq<char>>,
    res: Option<String>,
)
    requires
        c == BuiltinChecker::Rcmp4 || c == BuiltinChecker::Rcmp6 || c == BuiltinChecker::Rcmp9,
        a == words(output@),
        b == words(answer@),
        a.len() == b.len() ==> pairs@.len() == a.len(),
        call_ensures(BuiltinChecker::check, (c, output, answer, pairs), res),
    ensures
        res is None <==> {
            &&& a.len() == b.len()
            &&& forall|i: int| 0 <= i < a.len() ==> is_real(#[trigger] a[i])
            &&& forall|i: int| 0 <= i < b.len() ==> is_real(#[trigger] b[i])
            &&& forall|i: int|
                0 <= i < pairs@.len() ==> {
                    let pair = #[trigger] pairs@[i];
                    &&& pair.expected_kind == pair.found_kind
                    &&& pair.expected_kind is Ordinary ==> pair.near || pair.between
                }
        },
{
    real_acceptance(output@, answer@, tolerance_text(c), pairs@);
    if res is None {
        assert forall|i: int| 0 <= i < pairs@.len() implies {
            let pair = #[trigger] pairs@[i];
            &&& pair.expected_kind == pair.found_kind
            &&& pair.expected_kind is Ordinary ==> pair.near || pair.between
        } by {
            assert(is_close(pairs@[i]));
        }
    }
}

/// The values that are measured are the reals of the answer and of the output,
/// in their order.
pub proof fn the_values_to_measure_are_the_reals_of_the_texts(
    c: BuiltinChecker,
    output: &str,
    answer: &str,
    a: Seq<Seq<char>>,
    b: Seq<Seq<char>>,
    res: (Vec<String>, Vec<String>),
)
    requires
        c == BuiltinChecker::Rcmp4 || c == BuiltinChecker::Rcmp6 || c == BuiltinChecker::Rcmp9,
        a == words(output@),
        b == words(answer@),
        a.len() == b.len(),
        forall|i: int| 0 <= i < a.len() ==> is_real(#[trigger] a[i]),
        forall|i: int| 0 <= i < b.len() ==> is_real(#[trigger] b[i]),
        call_ensures(reals_to_compare, (c, output, answer), res),
    ensures
        texts(res.0@) == b,
        texts(res.1@) == a,
{
}

// ---------------------------------------------------------------------------
// Lines
// ---------------------------------------------------------------------------

proof fn lemma_line_is_dense(w: Seq<Seq<char>>)
    requires
        are_words(w),
    ensures
        ({
            let s = joined(w, seq![' ']);
            &&& forall|i: int| 0 <= i < s.len() ==> #[trigger] s[i] == ' ' || !is_white(s[i])
            &&& w.len() > 0 ==> s.len() > 0 && !is_white(s.last())
        }),
    decreases w.len(),
{
    let s = joined(w, seq![' ']);
    if w.len() == 1 {
        let t = w[0];
        assert(!is_white(t[t.len() - 1]));
    } else if w.len() > 1 {
        let front = w.drop_last();
        assert forall|i: int| #![trigger front[i]] 0 <= i < front.len() implies front[i].len() > 0
            && forall|j: int| 0 <= j < front[i].len() ==> !is_white(#[trigger] front[i][j]) by {
            assert(front[i] == w[i]);
        }
        lemma_line_is_dense(front);
        let f = joined(front, seq![' ']);
        let t = w[w.len() - 1];
        assert(s =~= f + seq![' '] + t);
        assert(!is_white(t[t.len() - 1]));
        assert(s.last() == t.last());
        assert forall|i: int| 0 <= i < s.len() implies #[trigger] s[i] == ' ' || !is_white(s[i]) by {
            if i < f.len() {
                assert(s[i] == f[i]);
            } else if i > f.len() {
                assert(s[i] == t[i - f.len() - 1]);
            }
        }
    }
}

/// Lines put together with line feeds between them are found again, unless the last
/// one is empty.
pub proof fn lines_are_found_again(v: Seq<Seq<char>>)
    requires
        forall|i: int|
            #![trigger v[i]]
            0 <= i < v.len() ==> (forall|j: int| 0 <= j < v[i].len() ==> #[trigger] v[i][j] != '\n')
                && (v[i].len() > 0 ==> v[i].last() != '\r'),
        v.len() > 0 ==> v.last().len() > 0,
    ensures
        lines_of(joined(v, seq!['\n'])) == v,
    decreases v.len(),
{
    let feed = seq!['\n'];
    if v.len() == 0 {
        lines_end_at_line_feeds(joined(v, feed), joined(v, feed));
        assert(joined(v, feed) =~= Seq::<char>::empty());
        assert(lines_of(joined(v, feed)) =~= v);
    } else if v.len() == 1 {
        lines_end_at_line_feeds(v[0], v[0]);
        assert(seq![v[0]] =~= v);
    } else {
        let rest = v.skip(1);
        assert forall|i: int| #![trigger rest[i]] 0 <= i < rest.len() implies (forall|j: int|
            0 <= j < rest[i].len() ==> #[trigger] rest[i][j] != '\n') && (rest[i].len() > 0
            ==> rest[i].last() != '\r') by {
            assert(rest[i] == v[i + 1]);
        }
        assert(rest.last() == v.last());
        lines_are_found_again(rest);
        joining_is_piecewise(seq![v[0]], rest, feed);
        assert(seq![v[0]] + rest =~= v);
        assert(joined(seq![v[0]], feed) == v[0]);
        lines_end_at_line_feeds(v[0], joined(rest, feed));
    }
}

/// The text of lines that are given by their tokens.
pub open spec fn text_of_lines(v: Seq<Seq<Seq<char>>>) -> Seq<char> {
    joined(v.map_values(|w: Seq<Seq<char>>| joined(w, seq![' '])), seq!['\n'])
}

/// Whether every line is given by words, and the last one has some.
pub open spec fn are_lines(v: Seq<Seq<Seq<char>>>) -> bool {
    &&& forall|i: int| 0 <= i < v.len() ==> are_words(#[trigger] v[i])
    &&& v.len() > 0 ==> v.last().len() > 0
}

proof fn lemma_text_of_lines(v: Seq<Seq<Seq<char>>>)
    requires
        are_lines(v),
    ensures
        line_words(content_lines(text_of_lines(v))) == v,
{
    let t = v.map_values(|w: Seq<Seq<char>>| joined(w, seq![' ']));
    assert forall|i: int| #![trigger t[i]] 0 <= i < t.len() implies (forall|j: int|
        0 <= j < t[i].len() ==> #[trigger] t[i][j] != '\n') && (t[i].len() > 0 ==> t[i].last()
        != '\r') by {
        assert(are_words(v[i]));
        lemma_line_is_dense(v[i]);
        if v[i].len() == 0 {
            assert(t[i].len() == 0);
        }
    }
    if v.len() > 0 {
        let last = v.len() - 1;
        assert(are_words(v[last]));
        lemma_line_is_dense(v[last]);
        let s = t[last];
        assert(!is_white(s[s.len() - 1]));
        assert(!is_blank(t.last()));
    }
    lines_are_found_again(t);
    assert(without_blank_end(t) == t);
    assert forall|i: int| 0 <= i < v.len() implies #[trigger] line_words(t)[i] == v[i] by {
        assert(are_words(v[i]));
        words_are_found_again(v[i]);
    }
    assert(line_words(t) =~= v);
}

/// Lines are compared one by one: an output is accepted for an answer exactly
/// when it has the same tokens on the same lines.
pub proof fn lines_are_compared_one_by_one(
    output: &str,
    answer: &str,
    pairs: &[RealPair],
    a: Seq<Seq<Seq<char>>>,
    b: Seq<Seq<Seq<char>>>,
    res: Option<String>,
)
    requires
        are_lines(a),
        are_lines(b),
        output@ == text_of_lines(a),
        answer@ == text_of_lines(b),
        call_ensures(BuiltinChecker::check, (BuiltinChecker::Lcmp, output, answer, pairs), res),
    ensures
        res is None <==> a == b,
{
    lemma_text_of_lines(a);
    lemma_text_of_lines(b);
    line_acceptance(output@, answer@);
}

// ---------------------------------------------------------------------------
// Messages
// ---------------------------------------------------------------------------

/// A value of up to 64 characters is shown as it is. Of a longer one the first
/// thirty and the last 31 characters are shown, with three points between them.
pub proof fn long_values_keep_their_ends(s: Seq<char>)
    ensures
        s.len() <= 64 ==> compressed(s) == s,
        s.len() > 64 ==> {
            let c = compressed(s);
            &&& c.len() == 64
            &&& c.take(30) == s.take(30)
            &&& c[30] == '.' && c[31] == '.' && c[32] == '.'
            &&& c.skip(33) == s.skip(s.len() - 31)
        },
{
    reveal_strlit("...");
    if s.len() > 64 {
        let c = compressed(s);
        assert(c.take(30) =~= s.take(30));
        assert(c.skip(33) =~= s.skip(s.len() - 31));
    }
}

proof fn lemma_agreement_is<T>(a: Seq<T>, b: Seq<T>, i: int)
    requires
        0 <= i <= a.len(),
        i <= b.len(),
        forall|j: int| 0 <= j < i ==> a[j] == b[j],
        i == a.len() || i == b.len() || a[i] != b[i],
    ensures
        agreement(a, b) == i,
{
    lemma_agreement_from(a, b, 0);
    let k = agreement(a, b) as int;
    if k < i {
        assert(a[k] == b[k]);
    }
    if k > i {
        assert(a[i] == b[i]);
    }
}

/// Where the tokens differ, the first that does is told by its number, with what
/// was expected and what was found.
pub proof fn the_first_wrong_token_is_told(
    output: Seq<char>,
    answer: Seq<char>,
    i: int,
    number: nat,
)
    requires
        0 <= i < words(output).len(),
        i < words(answer).len(),
        number == i + 1,
        forall|j: int| 0 <= j < i ==> words(output)[j] == words(answer)[j],
        words(output)[i] != words(answer)[i],
    ensures
        tokens_verdict(output, answer) == Some(
            "token"@ + " "@ + decimal(number) + " differs: expected "@ + debug_form(
                compressed(words(answer)[i]),
            ) + ", found "@ + debug_form(compressed(words(output)[i])),
        ),
{
    lemma_agreement_is(words(output), words(answer), i);
}

/// Where one text only has more tokens than the other, both numbers are told.
pub proof fn missing_tokens_are_counted(output: Seq<char>, answer: Seq<char>, i: int)
    requires
        words(output).len() != words(answer).len(),
        0 <= i <= words(output).len(),
        i <= words(answer).len(),
        i == words(output).len() || i == words(answer).len(),
        forall|j: int| 0 <= j < i ==> words(output)[j] == words(answer)[j],
    ensures
        tokens_verdict(output, answer) == Some(
            "expected "@ + decimal(words(answer).len()) + " "@ + "token"@ + "(s), found "@
                + decimal(words(output).len()),
        ),
{
    lemma_agreement_is(words(output), words(answer), i);
}

/// Where the lines differ, the first that does is told by its number, with what
/// was expected and what was found, but for white space at the ends.
pub proof fn the_first_wrong_line_is_told(
    output: Seq<char>,
    answer: Seq<char>,
    i: int,
    number: nat,
)
    requires
        0 <= i < content_lines(output).len(),
        i < content_lines(answer).len(),
        number == i + 1,
        forall|j: int|
            0 <= j < i ==> words(#[trigger] content_lines(output)[j]) == words(
                content_lines(answer)[j],
            ),
        words(content_lines(output)[i]) != words(content_lines(answer)[i]),
    ensures
        lines_verdict(output, answer) == Some(
            "line"@ + " "@ + decimal(number) + " differs: expected "@ + debug_form(
                compressed(trimmed_end(content_lines(answer)[i])),
            ) + ", found "@ + debug_form(compressed(trimmed_end(content_lines(output)[i]))),
        ),
{
    let a = line_words(content_lines(output));
    let b = line_words(content_lines(answer));
    assert forall|j: int| 0 <= j < i implies a[j] == b[j] by {
        assert(a[j] == words(content_lines(output)[j]));
    }
    lemma_agreement_is(a, b, i);
}

/// Where one text only has more lines than the other, both numbers are told.
pub proof fn missing_lines_are_counted(output: Seq<char>, answer: Seq<char>, i: int)
    requires
        content_lines(output).len() != content_lines(answer).len(),
        0 <= i <= content_lines(output).len(),
        i <= content_lines(answer).len(),
        i == content_lines(output).len() || i == content_lines(answer).len(),
        forall|j: int|
            0 <= j < i ==> words(#[trigger] content_lines(output)[j]) == words(
                content_lines(answer)[j],
            ),
    ensures
        lines_verdict(output, answer) == Some(
            "expected "@ + decimal(content_lines(answer).len()) + " "@ + "line"@ + "(s), found "@
                + decimal(content_lines(output).len()),
        ),
{
    let a = line_words(content_lines(output));
    let b = line_words(content_lines(answer));
    assert forall|j: int| 0 <= j < i implies a[j] == b[j] by {
        assert(a[j] == words(content_lines(output)[j]));
    }
    lemma_agreement_is(a, b, i);
}

proof fn lemma_first_bad_is(s: Seq<Seq<char>>, good: spec_fn(Seq<char>) -> bool, i: int)
    requires
        0 <= i <= s.len(),
        forall|j: int| 0 <= j < i ==> good(#[trigger] s[j]),
        i < s.len() ==> !good(s[i]),
    ensures
        first_bad(s, good) == i,
{
    lemma_good_from(s, good, 0);
    let k = first_bad(s, good) as int;
    if k < i {
        assert(good(s[k]));
    }
    if k > i {
        assert(good(s[i]));
    }
}

/// The first token that is not what it should be is told by its number, with
/// whether it is the program's or the reference's: the program's comes first
/// among numbers, the reference's among `YES` and `NO`.
pub proof fn the_first_malformed_token_is_told(
    output: Seq<char>,
    answer: Seq<char>,
    eps: Seq<char>,
    pairs: Seq<RealPair>,
    i: int,
    number: nat,
)
    requires
        i >= 0,
        number == i + 1,
    ensures
        ({
            let a = words(output);
            let b = words(answer);
            let ints = |t: Seq<char>| is_long(t);
            let reals = |t: Seq<char>| is_real(t);
            let invalid = "invalid answer (bug in reference?): "@;
            &&& is_first_bad(a, ints, i) ==> integers_verdict(output, answer) == Some(
                "output "@ + "token "@ + decimal(number) + " is not "@ + "an integer"@ + ": "@
                    + debug_form(compressed(a[i])),
            )
            &&& is_all_good(a, ints) && is_first_bad(b, ints, i) ==> integers_verdict(
                output,
                answer,
            ) == Some(
                invalid + ("answer "@ + "token "@ + decimal(number) + " is not "@ + "an integer"@
                    + ": "@ + debug_form(compressed(b[i]))),
            )
            &&& is_first_bad(a, reals, i) ==> reals_verdict(output, answer, eps, pairs) == Some(
                "output "@ + "token "@ + decimal(number) + " is not "@ + "a number"@ + ": "@
                    + debug_form(compressed(a[i])),
            )
            &&& is_all_good(a, reals) && is_first_bad(b, reals, i) ==> reals_verdict(
                output,
                answer,
                eps,
                pairs,
            ) == Some(
                invalid + ("answer "@ + "token "@ + decimal(number) + " is not "@ + "a number"@
                    + ": "@ + debug_form(compressed(b[i]))),
            )
        }),
{
    let a = words(output);
    let b = words(answer);
    let ints = |t: Seq<char>| is_long(t);
    let reals = |t: Seq<char>| is_real(t);
    if is_first_bad(a, ints, i) {
        lemma_first_bad_is(a, ints, i);
    }
    if is_all_good(a, ints) && is_first_bad(b, ints, i) {
        lemma_first_bad_all(a, ints);
        lemma_first_bad_is(b, ints, i);
    }
    if is_first_bad(a, reals, i) {
        lemma_first_bad_is(a, reals, i);
    }
    if is_all_good(a, reals) && is_first_bad(b, reals, i) {
        lemma_first_bad_all(a, reals);
        lemma_first_bad_is(b, reals, i);
    }
}

proof fn lemma_first_bad_all(s: Seq<Seq<char>>, good: spec_fn(Seq<char>) -> bool)
    requires
        is_all_good(s, good),
    ensures
        first_bad(s, good) == s.len(),
{
    lemma_good_from(s, good, 0);
    let k = first_bad(s, good) as int;
    if k < s.len() {
        assert(good(s[k]));
    }
}

/// Whether an element is the first that is not good.
pub open spec fn is_first_bad(s: Seq<Seq<char>>, good: spec_fn(Seq<char>) -> bool, i: int) -> bool {
    &&& 0 <= i < s.len()
    &&& !good(s[i])
    &&& forall|j: int| 0 <= j < i ==> good(#[trigger] s[j])
}

/// Whether every element is good.
pub open spec fn is_all_good(s: Seq<Seq<char>>, good: spec_fn(Seq<char>) -> bool) -> bool {
    forall|j: int| 0 <= j < s.len() ==> good(#[trigger] s[j])
}

/// Integers that differ are told as tokens are, and so are lists of which one is
/// longer.
pub proof fn the_first_wrong_integer_is_told(
    output: Seq<char>,
    answer: Seq<char>,
    i: int,
    number: nat,
)
    requires
        is_all_good(words(output), |t: Seq<char>| is_long(t)),
        is_all_good(words(answer), |t: Seq<char>| is_long(t)),
        0 <= i <= words(output).len(),
        i <= words(answer).len(),
        number == i + 1,
        forall|j: int| 0 <= j < i ==> words(output)[j] == words(answer)[j],
    ensures
        i < words(output).len() && i < words(answer).len() && words(output)[i] != words(answer)[i]
            ==> integers_verdict(output, answer) == Some(
            "token"@ + " "@ + decimal(number) + " differs: expected "@ + words(answer)[i]
                + ", found "@ + words(output)[i],
        ),
        words(output).len() != words(answer).len() && (i == words(output).len() || i == words(
            answer,
        ).len()) ==> integers_verdict(output, answer) == Some(
            "expected "@ + decimal(words(answer).len()) + " "@ + "token"@ + "(s), found "@
                + decimal(words(output).len()),
        ),
{
    let good = |t: Seq<char>| is_long(t);
    lemma_first_bad_all(words(output), good);
    lemma_first_bad_all(words(answer), good);
    if i == words(output).len() || i == words(answer).len() || words(output)[i] != words(
        answer,
    )[i] {
        lemma_agreement_is(words(output), words(answer), i);
    }
}

proof fn lemma_close_is(pairs: Seq<RealPair>, i: nat, k: int)
    requires
        i <= k < pairs.len(),
        forall|j: int| i <= j < k ==> is_close(#[trigger] pairs[j]),
        !is_close(pairs[k]),
    ensures
        close_from(pairs, i) == k,
    decreases k - i,
{
    if i < k {
        assert(is_close(pairs[i as int]));
        lemma_close_is(pairs, i + 1, k);
    }
}

/// Among comparable reals the first that is not close is told by its number, with
/// both values, the error and the tolerance.
pub proof fn the_first_wrong_real_is_told(
    output: Seq<char>,
    answer: Seq<char>,
    eps: Seq<char>,
    pairs: Seq<RealPair>,
    i: int,
    number: nat,
)
    requires
        reals_comparable(output, answer),
        0 <= i < pairs.len(),
        number == i + 1,
        forall|j: int| 0 <= j < i ==> is_close(#[trigger] pairs[j]),
        !is_close(pairs[i]),
    ensures
        reals_verdict(output, answer, eps, pairs) == Some(
            "token"@ + " "@ + decimal(number) + " differs: expected "@ + pairs[i].expected@
                + ", found "@ + pairs[i].found@ + " (error "@ + pairs[i].error@ + " > "@ + eps
                + ")"@,
        ),
{
    let good = |t: Seq<char>| is_real(t);
    lemma_first_bad_all(words(output), good);
    lemma_first_bad_all(words(answer), good);
    lemma_close_is(pairs, 0, i);
}

/// A line is blank exactly when it is white space throughout, and only blank lines at
/// the end are left out.
pub proof fn only_blank_lines_at_the_end_are_left_out(
    s: Seq<char>,
    v: Seq<Seq<char>>,
    blanks: Seq<Seq<char>>,
)
    requires
        v.len() > 0 ==> !is_all_white(v.last()),
        forall|i: int| 0 <= i < blanks.len() ==> is_all_white(#[trigger] blanks[i]),
    ensures
        is_blank(s) <==> is_all_white(s),
        without_blank_end(v + blanks) == v,
        lines_of(s) == v + blanks ==> content_lines(s) == v,
    decreases blanks.len(),
{
    if blanks.len() == 0 {
        assert(v + blanks =~= v);
        if v.len() > 0 {
            assert(is_blank(v.last()) <==> is_all_white(v.last()));
        }
    } else {
        let fewer = blanks.drop_last();
        assert forall|i: int| 0 <= i < fewer.len() implies is_all_white(#[trigger] fewer[i]) by {
            assert(fewer[i] == blanks[i]);
        }
        only_blank_lines_at_the_end_are_left_out(s, v, fewer);
        let last = blanks[blanks.len() - 1];
        assert(is_all_white(last));
        assert((v + blanks).last() == last);
        assert((v + blanks).drop_last() =~= v + fewer);
    }
}

/// Of `YES` and `NO` the first token that differs is told as tokens are, in capitals,
/// and so is the first that is neither; the reference is blamed before the program.
pub proof fn the_first_wrong_saying_is_told(
    output: Seq<char>,
    answer: Seq<char>,
    i: int,
    number: nat,
)
    requires
        0 <= i,
        number == i + 1,
    ensures
        ({
            let a = upper_words(output);
            let b = upper_words(answer);
            let good = |t: Seq<char>| is_yes_or_no(t);
            &&& is_first_bad(b, good, i) ==> yes_no_verdict(output, answer) == Some(
                "invalid answer (bug in reference?): "@ + (""@ + "token "@ + decimal(number)
                    + " is not "@ + "YES/NO"@ + ": "@ + debug_form(compressed(b[i]))),
            )
            &&& is_all_good(b, good) && is_first_bad(a, good, i) ==> yes_no_verdict(output, answer)
                == Some(
                ""@ + "token "@ + decimal(number) + " is not "@ + "YES/NO"@ + ": "@ + debug_form(
                    compressed(a[i]),
                ),
            )
            &&& is_all_good(b, good) && is_all_good(a, good) && i < a.len() && i < b.len() && a[i]
                != b[i] && (forall|j: int| 0 <= j < i ==> a[j] == b[j]) ==> yes_no_verdict(
                output,
                answer,
            ) == Some(
                "token"@ + " "@ + decimal(number) + " differs: expected "@ + b[i] + ", found "@
                    + a[i],
            )
            &&& is_all_good(b, good) && is_all_good(a, good) && a.len() != b.len() && (i == a.len()
                || i == b.len()) && i <= a.len() && i <= b.len() && (forall|j: int|
                0 <= j < i ==> a[j] == b[j]) ==> yes_no_verdict(output, answer) == Some(
                "expected "@ + decimal(b.len()) + " "@ + "token"@ + "(s), found "@ + decimal(
                    a.len(),
                ),
            )
        }),
{
    let a = upper_words(output);
    let b = upper_words(answer);
    let good = |t: Seq<char>| is_yes_or_no(t);
    if is_first_bad(b, good, i) {
        lemma_first_bad_is(b, good, i);
    }
    if is_all_good(b, good) {
        lemma_first_bad_all(b, good);
        if is_first_bad(a, good, i) {
            lemma_first_bad_is(a, good, i);
        }
        if is_all_good(a, good) {
            lemma_first_bad_all(a, good);
            if i <= a.len() && i <= b.len() && (forall|j: int| 0 <= j < i ==> a[j] == b[j]) && (i
                == a.len() || i == b.len() || a[i] != b[i]) {
                lemma_agreement_is(a, b, i);
            }
        }
    }
}

/// Capitals stand in place of the letters `a` to `z`, and every other character is
/// left alone.
pub proof fn only_letters_become_capitals(s: Seq<char>, i: int)
    requires
        0 <= i < s.len(),
    ensures
        upper(s).len() == s.len(),
        'a' <= s[i] <= 'z' ==> upper(s)[i] as int == s[i] as int - 32,
        !('a' <= s[i] <= 'z') ==> upper(s)[i] == s[i],
{
    lemma_letter(s[i]);
}

proof fn lemma_letter(c: char)
    ensures
        'a' <= c <= 'z' ==> upper_char(c) as int == c as int - 32,
{
}

/// Where one text only has more reals than the other, both numbers are told.
pub proof fn missing_reals_are_counted(
    output: Seq<char>,
    answer: Seq<char>,
    eps: Seq<char>,
    pairs: Seq<RealPair>,
)
    requires
        is_all_good(words(output), |t: Seq<char>| is_real(t)),
        is_all_good(words(answer), |t: Seq<char>| is_real(t)),
        words(output).len() != words(answer).len(),
    ensures
        reals_verdict(output, answer, eps, pairs) == Some(
            "expected "@ + decimal(words(answer).len()) + " "@ + "token"@ + "(s), found "@
                + decimal(words(output).len()),
        ),
{
    let good = |t: Seq<char>| is_real(t);
    lemma_first_bad_all(words(output), good);
    lemma_first_bad_all(words(answer), good);
}

/// Each checker says of two texts what its own way of comparing them finds.
pub proof fn checkers_compare_in_their_own_way(
    c: BuiltinChecker,
    output: &str,
    answer: &str,
    pairs: &[RealPair],
    res: Option<String>,
)
    requires
        call_ensures(BuiltinChecker::check, (c, output, answer, pairs), res),
    ensures
        text_if_any(res) == match c {
            BuiltinChecker::Wcmp => tokens_verdict(output@, answer@),
            BuiltinChecker::Lcmp => lines_verdict(output@, answer@),
            BuiltinChecker::Ncmp => integers_verdict(output@, answer@),
            BuiltinChecker::Nyesno => yes_no_verdict(output@, answer@),
            BuiltinChecker::Rcmp4 => reals_verdict(output@, answer@, "1.000e-4"@, pairs@),
            BuiltinChecker::Rcmp6 => reals_verdict(output@, answer@, "1.000e-6"@, pairs@),
            BuiltinChecker::Rcmp9 => reals_verdict(output@, answer@, "1.000e-9"@, pairs@),
        },
        res is None <==> text_if_any(res) is None,
        res is Some ==> text_if_any(res) == Some(res->0@),
{
}

/// Two reals are close where both are ordinary and either error is small enough, or
/// where both are infinite with the same sign or no numbers at all.
pub proof fn reals_are_close_by_their_errors(pair: RealPair, res: bool)
    requires
        call_ensures(double_compare, (&pair,), res),
    ensures
        pair.expected_kind is Ordinary && pair.found_kind is Ordinary ==> (res <==> pair.near
            || pair.between),
        !(pair.expected_kind is Ordinary && pair.found_kind is Ordinary) ==> (res
            <==> pair.expected_kind == pair.found_kind),
{
}

/// A file is compared by the text that all of it stands for, and one that cannot be
/// read as if it were empty.
pub proof fn files_are_compared_whole(contents: Option<Vec<u8>>, res: String)
    requires
        call_ensures(read_for_check, (&contents,), res),
    ensures
        contents is Some ==> res@ == lossy_form(contents->0@),
        contents is None ==> res@.len() == 0,
{
    reveal_strlit("");
}

/// Lines are compared by their tokens whatever else they hold: an output is accepted
/// for an answer exactly when they have equally many lines up to the last that is not
/// blank, and the same tokens on each.
pub proof fn only_the_tokens_of_lines_count(
    output: &str,
    answer: &str,
    pairs: &[RealPair],
    v: Seq<Seq<char>>,
    w: Seq<Seq<char>>,
    blanks: Seq<Seq<char>>,
    other_blanks: Seq<Seq<char>>,
    res: Option<String>,
)
    requires
        lines_of(output@) == v + blanks,
        lines_of(answer@) == w + other_blanks,
        v.len() > 0 ==> !is_all_white(v.last()),
        w.len() > 0 ==> !is_all_white(w.last()),
        forall|i: int| 0 <= i < blanks.len() ==> is_all_white(#[trigger] blanks[i]),
        forall|i: int| 0 <= i < other_blanks.len() ==> is_all_white(#[trigger] other_blanks[i]),
        call_ensures(BuiltinChecker::check, (BuiltinChecker::Lcmp, output, answer, pairs), res),
    ensures
        res is None <==> v.len() == w.len() && forall|i: int|
            0 <= i < v.len() ==> words(#[trigger] v[i]) == words(w[i]),
{
    only_blank_lines_at_the_end_are_left_out(output@, v, blanks);
    only_blank_lines_at_the_end_are_left_out(answer@, w, other_blanks);
    line_acceptance(output@, answer@);
    let a = line_words(v);
    let b = line_words(w);
    if a == b {
        assert(a.len() == v.len() && b.len() == w.len());
        assert forall|i: int| 0 <= i < v.len() implies words(#[trigger] v[i]) == words(w[i]) by {
            assert(a[i] == b[i]);
        }
    }
    if v.len() == w.len() && forall|i: int|
        0 <= i < v.len() ==> words(#[trigger] v[i]) == words(w[i]) {
        assert(a =~= b);
    }
}

/// A custom checker accepts by the exit code 0 and rejects by 1 and 2, and any other
/// says that it failed.
pub proof fn exit_codes_of_checkers_have_a_meaning(code: i32, res: CustomOutcome)
    requires
        call_ensures(interpret_custom_exit, (code,), res),
    ensures
        res == CustomOutcome::Ac <==> code == 0,
        res == CustomOutcome::Wa <==> code == 1 || code == 2,
        res == CustomOutcome::Failed <==> code < 0 || code > 2,
{
}

} // verus!
