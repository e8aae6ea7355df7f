//! What holds of the checkers whatever the texts are.

use vstd::prelude::*;

use crate::checker::{
    agreement, check_verdict, close_from, compares_reals, content_lines, custom_outcome, digits_end,
    first_bad, integers_verdict, is_blank, is_close, is_exponent, is_long, is_real, is_yes_or_no,
    lemma_agreement_equal, lemma_agreement_from, lemma_good_from, line_acceptance, line_words,
    lines_verdict, pairs_fit, reals_comparable, reals_verdict, sign_end, token_acceptance,
    tokens_verdict, tolerance_text, upper, upper_words, without_blank_end, yes_no_verdict,
    BuiltinChecker, CustomOutcome, RealKind, RealPair,
};
use crate::number::{int_text, is_canonical, is_digit, lemma_decimal_value};
use crate::text::{
    is_white, lemma_line_len, lemma_word_len, line_len, lines_of, trimmed_end, without_cr, word_len,
    words,
};

verus! {

// ---------------------------------------------------------------------------
// White space
// ---------------------------------------------------------------------------

proof fn lemma_word_len_prefix(a: Seq<char>, b: Seq<char>)
    requires
        word_len(a) < a.len() || b.len() == 0 || is_white(b[0]),
    ensures
        word_len(a + b) == word_len(a),
    decreases a.len(),
{
    let s = a + b;
    if a.len() == 0 {
        if b.len() > 0 {
            assert(s[0] == b[0]);
        }
    } else {
        assert(s[0] == a[0]);
        if !is_white(a[0]) {
            assert(s.skip(1) =~= a.skip(1) + b);
            lemma_word_len_prefix(a.skip(1), b);
        }
    }
}

/// Where two texts meet at white space, the words of the whole are the words
/// of the one followed by the words of the other.
pub proof fn words_of_concatenation(a: Seq<char>, b: Seq<char>)
    requires
        a.len() == 0 || b.len() == 0 || is_white(a.last()) || is_white(b[0]),
    ensures
        words(a + b) == words(a) + words(b),
    decreases a.len(),
{
    let s = a + b;
    if a.len() == 0 {
        assert(s =~= b);
        assert(words(a) + words(b) =~= words(b));
    } else {
        assert(s[0] == a[0]);
        if is_white(a[0]) {
            assert(s.skip(1) =~= a.skip(1) + b);
            if a.len() > 1 {
                assert(a.skip(1).last() == a.last());
            }
            words_of_concatenation(a.skip(1), b);
        } else {
            lemma_word_len(a);
            lemma_word_len(s);
            let n = word_len(a) as int;
            if n == a.len() {
                assert(!is_white(a[a.len() - 1]));
            }
            lemma_word_len_prefix(a, b);
            assert(s.take(n) =~= a.take(n));
            assert(s.skip(n) =~= a.skip(n) + b);
            if n < a.len() {
                assert(a.skip(n).last() == a.last());
            }
            words_of_concatenation(a.skip(n), b);
            assert(words(s) =~= words(a) + words(b));
        }
    }
}

/// A blank text has no words.
pub proof fn blank_has_no_words(s: Seq<char>)
    requires
        is_blank(s),
    ensures
        words(s) == Seq::<Seq<char>>::empty(),
    decreases s.len(),
{
    if s.len() > 0 {
        assert(is_white(s[0]));
        let t = s.skip(1);
        assert forall|i: int| 0 <= i < t.len() implies is_white(#[trigger] t[i]) by {
            assert(t[i] == s[i + 1]);
        }
        blank_has_no_words(t);
    }
}

/// A text without words is blank.
pub proof fn no_words_is_blank(s: Seq<char>)
    requires
        words(s).len() == 0,
    ensures
        is_blank(s),
    decreases s.len(),
{
    if s.len() > 0 {
        lemma_word_len(s);
        assert(is_white(s[0]));
        let t = s.skip(1);
        no_words_is_blank(t);
        assert forall|i: int| 0 <= i < s.len() implies is_white(#[trigger] s[i]) by {
            if i > 0 {
                assert(is_white(t[i - 1]));
            }
        }
    }
}

/// How two texts are kept apart does not matter to their words, as long as
/// there is white space between them.
pub proof fn spacing_is_insignificant(
    a: Seq<char>,
    gap: Seq<char>,
    other_gap: Seq<char>,
    b: Seq<char>,
)
    requires
        gap.len() > 0,
        other_gap.len() > 0,
        is_blank(gap),
        is_blank(other_gap),
    ensures
        words(a + gap + b) == words(a + other_gap + b),
        words(a + gap + b) == words(a) + words(b),
{
    lemma_gap(a, gap, b);
    lemma_gap(a, other_gap, b);
}

proof fn lemma_gap(a: Seq<char>, gap: Seq<char>, b: Seq<char>)
    requires
        gap.len() > 0,
        is_blank(gap),
    ensures
        words(a + gap + b) == words(a) + words(b),
{
    assert(is_white(gap[0]));
    assert(is_white(gap[gap.len() - 1]));
    let front = a + gap;
    assert(front.last() == gap.last());
    words_of_concatenation(front, b);
    words_of_concatenation(a, gap);
    blank_has_no_words(gap);
    assert(words(a) + words(gap) =~= words(a));
}

/// The checkers that look at tokens give the same verdict to outputs that
/// differ only in how their tokens are spaced, and likewise for answers.
pub proof fn token_checkers_ignore_spacing(
    c: BuiltinChecker,
    output: Seq<char>,
    other_output: Seq<char>,
    answer: Seq<char>,
    other_answer: Seq<char>,
    pairs: Seq<RealPair>,
)
    requires
        !(c is Lcmp),
        words(output) == words(other_output),
        words(answer) == words(other_answer),
    ensures
        check_verdict(c, output, answer, pairs) == check_verdict(
            c,
            other_output,
            other_answer,
            pairs,
        ),
{
}

// ---------------------------------------------------------------------------
// Acceptance
// ---------------------------------------------------------------------------

/// `ncmp` accepts exactly when both texts are integers throughout, and the
/// same ones.
pub proof fn integer_acceptance(output: Seq<char>, answer: Seq<char>)
    ensures
        integers_verdict(output, answer) is None <==> words(output) == words(answer) && (forall|
            i: int,
        |
            0 <= i < words(output).len() ==> is_long(#[trigger] words(output)[i])),
{
    let a = words(output);
    let b = words(answer);
    let good = |t: Seq<char>| is_long(t);
    lemma_good_from(a, good, 0);
    lemma_good_from(b, good, 0);
    lemma_agreement_equal(a, b);
    lemma_agreement_from(a, b, 0);
    if integers_verdict(output, answer) is None {
        assert forall|i: int| 0 <= i < a.len() implies is_long(#[trigger] a[i]) by {
            assert(good(a[i]));
        }
    }
    if a == b && (forall|i: int| 0 <= i < a.len() ==> is_long(#[trigger] a[i])) {
        if first_bad(a, good) < a.len() {
            assert(!good(a[first_bad(a, good) as int]));
        }
    }
}

/// `nyesno` accepts exactly when both texts are `YES`/`NO` throughout, in
/// whatever case, and say the same.
pub proof fn yes_no_acceptance(output: Seq<char>, answer: Seq<char>)
    ensures
        yes_no_verdict(output, answer) is None <==> upper_words(output) == upper_words(answer) && (
        forall|i: int|
            0 <= i < upper_words(output).len() ==> is_yes_or_no(#[trigger] upper_words(output)[i])),
{
    let a = upper_words(output);
    let b = upper_words(answer);
    let good = |t: Seq<char>| is_yes_or_no(t);
    lemma_good_from(a, good, 0);
    lemma_good_from(b, good, 0);
    lemma_agreement_equal(a, b);
    lemma_agreement_from(a, b, 0);
    if yes_no_verdict(output, answer) is None {
        assert forall|i: int| 0 <= i < a.len() implies is_yes_or_no(#[trigger] a[i]) by {
            assert(good(a[i]));
        }
    }
    if a == b && (forall|i: int| 0 <= i < a.len() ==> is_yes_or_no(#[trigger] a[i])) {
        if first_bad(a, good) < a.len() {
            assert(!good(a[first_bad(a, good) as int]));
        }
    }
}

proof fn lemma_close_from(pairs: Seq<RealPair>, i: nat)
    requires
        i <= pairs.len(),
    ensures
        i <= close_from(pairs, i) <= pairs.len(),
        close_from(pairs, i) == pairs.len() <==> (forall|j: int|
            i <= j < pairs.len() ==> is_close(#[trigger] pairs[j])),
    decreases pairs.len() - i,
{
    if i < pairs.len() && is_close(pairs[i as int]) {
        lemma_close_from(pairs, i + 1);
    }
}

/// `rcmp` accepts exactly when both texts are reals throughout, equally many,
/// and every pair is close.
pub proof fn real_acceptance(
    output: Seq<char>,
    answer: Seq<char>,
    eps: Seq<char>,
    pairs: Seq<RealPair>,
)
    requires
        reals_comparable(output, answer) ==> pairs.len() == words(output).len(),
    ensures
        reals_verdict(output, answer, eps, pairs) is None <==> reals_comparable(output, answer) && (
        forall|i: int| 0 <= i < pairs.len() ==> is_close(#[trigger] pairs[i])),
{
    let a = words(output);
    let b = words(answer);
    let good = |t: Seq<char>| is_real(t);
    lemma_good_from(a, good, 0);
    lemma_good_from(b, good, 0);
    lemma_close_from(pairs, 0);
    if first_bad(a, good) == a.len() {
        assert forall|i: int| 0 <= i < a.len() implies is_real(#[trigger] a[i]) by {
            assert(good(a[i]));
        }
    } else {
        assert(!good(a[first_bad(a, good) as int]));
    }
    if first_bad(b, good) == b.len() {
        assert forall|i: int| 0 <= i < b.len() implies is_real(#[trigger] b[i]) by {
            assert(good(b[i]));
        }
    } else {
        assert(!good(b[first_bad(b, good) as int]));
    }
}

/// Whatever the checker, an accepted output has as many tokens as the answer:
/// a difference in length is reported in either direction.
pub proof fn accepted_outputs_are_complete(
    c: BuiltinChecker,
    output: Seq<char>,
    answer: Seq<char>,
    pairs: Seq<RealPair>,
)
    requires
        pairs_fit(c, output, answer, pairs),
        check_verdict(c, output, answer, pairs) is None,
    ensures
        words(output).len() == words(answer).len(),
        c is Lcmp ==> content_lines(output).len() == content_lines(answer).len(),
{
    match c {
        BuiltinChecker::Wcmp => {
            token_acceptance(output, answer);
        },
        BuiltinChecker::Lcmp => {
            line_acceptance(output, answer);
            lines_are_stricter_than_tokens(output, answer);
            token_acceptance(output, answer);
        },
        BuiltinChecker::Ncmp => {
            integer_acceptance(output, answer);
        },
        BuiltinChecker::Nyesno => {
            yes_no_acceptance(output, answer);
            assert(upper_words(output).len() == words(output).len());
            assert(upper_words(answer).len() == words(answer).len());
        },
        _ => {},
    }
}

/// An output that repeats the answer is accepted by the checkers of tokens and
/// lines, whatever it says.
pub proof fn the_answer_is_accepted(answer: Seq<char>)
    ensures
        tokens_verdict(answer, answer) is None,
        lines_verdict(answer, answer) is None,
{
    token_acceptance(answer, answer);
    line_acceptance(answer, answer);
}

/// Custom checkers: 0 accepts, 1 and 2 reject, every other code is a failure.
pub proof fn exit_codes_are_read_as_testlib_does(code: int)
    ensures
        custom_outcome(code) == CustomOutcome::Ac <==> code == 0,
        custom_outcome(code) == CustomOutcome::Wa <==> code == 1 || code == 2,
        custom_outcome(code) == CustomOutcome::Failed <==> code < 0 || code > 2,
{
}

// ---------------------------------------------------------------------------
// Notations
// ---------------------------------------------------------------------------

/// The notation of integers is strict: behind an optional minus sign come
/// digits without a redundant leading zero, and minus zero is none.
pub proof fn integers_are_strict(t: Seq<char>)
    requires
        is_long(t),
    ensures
        t.len() > 0,
        t[0] == '-' ==> is_canonical(t.skip(1)) && t[1] != '0',
        t[0] != '-' ==> is_canonical(t),
        forall|i: int| 0 <= i < t.len() ==> #[trigger] t[i] != '+',
{
    let v = choose|v: i64| t == #[trigger] int_text(v as int);
    if v < 0 {
        let n = (-(v as int)) as nat;
        lemma_decimal_value(n);
        assert(t.skip(1) =~= crate::number::decimal(n));
        assert(t[1] == t.skip(1)[0]);
        assert forall|i: int| 0 <= i < t.len() implies #[trigger] t[i] != '+' by {
            if i > 0 {
                assert(is_digit(t.skip(1)[i - 1]));
            }
        }
    } else {
        lemma_decimal_value(v as nat);
        assert(is_digit(t[0]));
    }
}

/// Whether a character can occur in a real number.
pub open spec fn is_real_char(c: char) -> bool {
    is_digit(c) || c == '.' || c == 'e' || c == 'E' || c == '+' || c == '-'
}

proof fn lemma_digits_before_end(s: Seq<char>, i: int)
    requires
        0 <= i <= s.len(),
    ensures
        i <= digits_end(s, i) <= s.len(),
        forall|j: int| i <= j < digits_end(s, i) ==> is_digit(#[trigger] s[j]),
    decreases s.len() - i,
{
    if i < s.len() && is_digit(s[i]) {
        lemma_digits_before_end(s, i + 1);
    }
}

/// A real number is written with digits, a point, `e`, `E` and signs alone, so
/// that `nan` and `inf` are malformed and never values to compare.
pub proof fn reals_have_no_names(t: Seq<char>)
    requires
        is_real(t),
    ensures
        forall|i: int| 0 <= i < t.len() ==> is_real_char(#[trigger] t[i]),
{
    let start = sign_end(t, 0);
    lemma_digits_before_end(t, start);
    let whole_end = digits_end(t, start);
    let pointed = whole_end < t.len() && t[whole_end] == '.';
    if pointed {
        lemma_digits_before_end(t, whole_end + 1);
    }
    let end = if pointed {
        digits_end(t, whole_end + 1)
    } else {
        whole_end
    };
    if end < t.len() {
        assert(is_exponent(t, end));
        lemma_digits_before_end(t, sign_end(t, end + 1));
    }
}

// ---------------------------------------------------------------------------
// Case
// ---------------------------------------------------------------------------

proof fn lemma_upper_word_len(s: Seq<char>)
    ensures
        word_len(upper(s)) == word_len(s),
    decreases s.len(),
{
    if s.len() > 0 && !is_white(s[0]) {
        assert(upper(s).skip(1) =~= upper(s.skip(1)));
        lemma_upper_word_len(s.skip(1));
    }
}

proof fn lemma_upper_words(s: Seq<char>)
    ensures
        words(upper(s)) == upper_words(s),
    decreases s.len(),
{
    let u = upper(s);
    if s.len() == 0 {
        assert(words(u) =~= upper_words(s));
    } else if is_white(s[0]) {
        assert(u[0] == s[0]);
        assert(u.skip(1) =~= upper(s.skip(1)));
        lemma_upper_words(s.skip(1));
    } else {
        assert(!is_white(u[0]));
        lemma_word_len(s);
        lemma_upper_word_len(s);
        let n = word_len(s) as int;
        assert(u.take(n) =~= upper(s.take(n)));
        assert(u.skip(n) =~= upper(s.skip(n)));
        lemma_upper_words(s.skip(n));
        assert(words(u) =~= upper_words(s));
    }
}

/// `nyesno` does not see the difference between small and capital letters.
pub proof fn nyesno_ignores_case(output: Seq<char>, answer: Seq<char>)
    ensures
        yes_no_verdict(upper(output), upper(answer)) == yes_no_verdict(output, answer),
{
    lemma_upper_twice(output);
    lemma_upper_twice(answer);
}

proof fn lemma_upper_twice(s: Seq<char>)
    ensures
        upper_words(upper(s)) == upper_words(s),
{
    lemma_upper_words(s);
    lemma_upper_words(upper(s));
    assert(upper(upper(s)) =~= upper(s));
}

// ---------------------------------------------------------------------------
// Lines
// ---------------------------------------------------------------------------

/// The elements of the sequences in `v`, one sequence after the other.
pub open spec fn flat(v: Seq<Seq<Seq<char>>>) -> Seq<Seq<char>>
    decreases v.len(),
{
    if v.len() == 0 {
        seq![]
    } else {
        v[0] + flat(v.skip(1))
    }
}

proof fn lemma_words_without_cr(s: Seq<char>)
    ensures
        words(without_cr(s)) == words(s),
{
    if s.len() > 0 && s.last() == '\r' {
        let tail = seq!['\r'];
        assert(s =~= s.drop_last() + tail);
        words_of_concatenation(s.drop_last(), tail);
        blank_has_no_words(tail);
        assert(words(s.drop_last()) + words(tail) =~= words(s.drop_last()));
    }
}

/// The words of a text are the words of its lines.
pub proof fn words_are_words_of_lines(s: Seq<char>)
    ensures
        words(s) == flat(line_words(lines_of(s))),
    decreases s.len(),
{
    let v = line_words(lines_of(s));
    if s.len() > 0 {
        lemma_line_len(s);
        let n = line_len(s) as int;
        if n < s.len() {
            let head = s.take(n);
            let rest = s.skip(n + 1);
            let tail = s.skip(n);
            assert(s =~= head + tail);
            assert(tail[0] == '\n');
            words_of_concatenation(head, tail);
            assert(tail.skip(1) =~= rest);
            assert(words(tail) == words(rest));
            lemma_words_without_cr(head);
            words_are_words_of_lines(rest);
            assert(v.skip(1) =~= line_words(lines_of(rest)));
            assert(v[0] == words(without_cr(head)));
        } else {
            assert(v =~= seq![words(s)]);
            assert(v.skip(1) =~= Seq::<Seq<Seq<char>>>::empty());
            assert(flat(v.skip(1)) =~= Seq::<Seq<char>>::empty());
            assert(flat(v) =~= words(s));
        }
    } else {
        assert(v =~= Seq::<Seq<Seq<char>>>::empty());
        assert(flat(v) =~= words(s));
    }
}

proof fn lemma_flat_push(v: Seq<Seq<Seq<char>>>, x: Seq<Seq<char>>)
    ensures
        flat(v.push(x)) == flat(v) + x,
    decreases v.len(),
{
    let w = v.push(x);
    if v.len() == 0 {
        assert(w.skip(1) =~= Seq::<Seq<Seq<char>>>::empty());
        assert(flat(w.skip(1)) =~= Seq::<Seq<char>>::empty());
        assert(flat(w) =~= flat(v) + x);
    } else {
        assert(w.skip(1) =~= v.skip(1).push(x));
        lemma_flat_push(v.skip(1), x);
        assert(flat(w) =~= flat(v) + x);
    }
}

proof fn lemma_blank_end_has_no_words(v: Seq<Seq<char>>)
    ensures
        flat(line_words(without_blank_end(v))) == flat(line_words(v)),
    decreases v.len(),
{
    if v.len() > 0 && is_blank(v.last()) {
        lemma_blank_end_has_no_words(v.drop_last());
        blank_has_no_words(v.last());
        assert(line_words(v) =~= line_words(v.drop_last()).push(words(v.last())));
        lemma_flat_push(line_words(v.drop_last()), words(v.last()));
        assert(flat(line_words(v)) =~= flat(line_words(v.drop_last())));
    }
}

/// What `lcmp` accepts, `wcmp` accepts too.
pub proof fn lines_are_stricter_than_tokens(output: Seq<char>, answer: Seq<char>)
    requires
        lines_verdict(output, answer) is None,
    ensures
        tokens_verdict(output, answer) is None,
{
    line_acceptance(output, answer);
    words_are_words_of_lines(output);
    words_are_words_of_lines(answer);
    lemma_blank_end_has_no_words(lines_of(output));
    lemma_blank_end_has_no_words(lines_of(answer));
    token_acceptance(output, answer);
}

proof fn lemma_line_len_prefix(a: Seq<char>, b: Seq<char>)
    ensures
        line_len(a) < a.len() ==> line_len(a + b) == line_len(a),
        line_len(a) == a.len() ==> line_len(a + b) == a.len() + line_len(b),
    decreases a.len(),
{
    let s = a + b;
    if a.len() == 0 {
        assert(s =~= b);
    } else {
        assert(s[0] == a[0]);
        if a[0] != '\n' {
            assert(s.skip(1) =~= a.skip(1) + b);
            lemma_line_len_prefix(a.skip(1), b);
        }
    }
}

proof fn lemma_without_blank_end_front(x: Seq<char>, v: Seq<Seq<char>>)
    ensures
        without_blank_end(seq![x] + v) == (if without_blank_end(v).len() > 0 {
            seq![x] + without_blank_end(v)
        } else if is_blank(x) {
            seq![]
        } else {
            seq![x]
        }),
    decreases v.len(),
{
    let w = seq![x] + v;
    if v.len() == 0 {
        let none = Seq::<Seq<char>>::empty();
        assert(w =~= seq![x]);
        assert(w.drop_last() =~= none);
        assert(without_blank_end(none) == none);
        assert(v =~= none);
    } else {
        assert(w.last() == v.last());
        if is_blank(v.last()) {
            assert(w.drop_last() =~= seq![x] + v.drop_last());
            lemma_without_blank_end_front(x, v.drop_last());
        }
    }
}

proof fn lemma_blank_lines(s: Seq<char>)
    requires
        is_blank(s),
    ensures
        without_blank_end(lines_of(s)) == Seq::<Seq<char>>::empty(),
    decreases s.len(),
{
    if s.len() > 0 {
        lemma_line_len(s);
        let n = line_len(s) as int;
        if n < s.len() {
            let x = without_cr(s.take(n));
            assert forall|i: int| 0 <= i < x.len() implies is_white(#[trigger] x[i]) by {
                assert(x[i] == s[i]);
            }
            let rest = s.skip(n + 1);
            assert forall|i: int| 0 <= i < rest.len() implies is_white(#[trigger] rest[i]) by {
                assert(rest[i] == s[i + n + 1]);
            }
            lemma_blank_lines(rest);
            lemma_without_blank_end_front(x, lines_of(rest));
        } else {
            let none = Seq::<Seq<char>>::empty();
            let one = seq![s];
            assert(one.last() == s);
            assert(one.drop_last() =~= none);
            assert(without_blank_end(none) == none);
        }
    }
}

/// Blanks at the end of a line are not shown.
proof fn lemma_trimmed_extended(s: Seq<char>, t: Seq<char>)
    requires
        is_blank(t),
    ensures
        trimmed_end(s + t) == trimmed_end(s),
        trimmed_end(without_cr(s + t)) == trimmed_end(s),
    decreases t.len(),
{
    let u = s + t;
    if t.len() == 0 {
        assert(u =~= s);
    } else {
        let shorter = t.drop_last();
        assert forall|i: int| 0 <= i < shorter.len() implies is_white(#[trigger] shorter[i]) by {
            assert(shorter[i] == t[i]);
        }
        lemma_trimmed_extended(s, shorter);
        assert(is_white(t[t.len() - 1]));
        assert(u.last() == t[t.len() - 1]);
        assert(u.drop_last() =~= s + shorter);
    }
}

/// Lines as messages show them, without the white space at their ends.
pub open spec fn shown_lines(v: Seq<Seq<char>>) -> Seq<Seq<char>> {
    v.map_values(|l: Seq<char>| trimmed_end(l))
}

proof fn lemma_first_line_extended(s: Seq<char>, t: Seq<char>)
    requires
        is_blank(t),
    ensures
        words(without_cr(s + t)) == words(s),
        words(s + t) == words(s),
        is_blank(without_cr(s + t)) == is_blank(s),
        is_blank(s + t) == is_blank(s),
        trimmed_end(without_cr(s + t)) == trimmed_end(s),
        trimmed_end(s + t) == trimmed_end(s),
{
    lemma_trimmed_extended(s, t);
    if t.len() > 0 {
        assert(is_white(t[0]));
    }
    words_of_concatenation(s, t);
    blank_has_no_words(t);
    assert(words(s) + words(t) =~= words(s));
    lemma_words_without_cr(s + t);
    lemma_blank_iff_no_words(s);
    lemma_blank_iff_no_words(s + t);
    lemma_blank_iff_no_words(without_cr(s + t));
}

proof fn lemma_blank_iff_no_words(s: Seq<char>)
    ensures
        is_blank(s) <==> words(s).len() == 0,
{
    if is_blank(s) {
        blank_has_no_words(s);
    }
    if words(s).len() == 0 {
        no_words_is_blank(s);
    }
}

/// White space at the end of a text, blank lines among it, does not matter to
/// what `lcmp` compares and shows.
pub proof fn trailing_blanks_are_insignificant(s: Seq<char>, t: Seq<char>)
    requires
        is_blank(t),
    ensures
        line_words(content_lines(s + t)) == line_words(content_lines(s)),
        shown_lines(content_lines(s + t)) == shown_lines(content_lines(s)),
    decreases s.len(),
{
    let u = s + t;
    if s.len() == 0 {
        assert(u =~= t);
        lemma_blank_lines(t);
        assert(content_lines(s) =~= Seq::<Seq<char>>::empty());
    } else {
        lemma_line_len(s);
        lemma_line_len(t);
        lemma_line_len_prefix(s, t);
        let n = line_len(s) as int;
        if n < s.len() {
            let x = without_cr(s.take(n));
            assert(u.take(n) =~= s.take(n));
            assert(u.skip(n + 1) =~= s.skip(n + 1) + t);
            let rest = s.skip(n + 1);
            trailing_blanks_are_insignificant(rest, t);
            lemma_without_blank_end_front(x, lines_of(rest));
            lemma_without_blank_end_front(x, lines_of(rest + t));
            assert(line_words(content_lines(rest + t)).len() == line_words(
                content_lines(rest),
            ).len());
            if content_lines(rest).len() > 0 {
                assert(line_words(content_lines(u)) =~= seq![words(x)] + line_words(
                    content_lines(rest + t),
                ));
                assert(line_words(content_lines(s)) =~= seq![words(x)] + line_words(
                    content_lines(rest),
                ));
                assert(shown_lines(content_lines(u)) =~= seq![trimmed_end(x)] + shown_lines(
                    content_lines(rest + t),
                ));
                assert(shown_lines(content_lines(s)) =~= seq![trimmed_end(x)] + shown_lines(
                    content_lines(rest),
                ));
            }
        } else {
            let none = Seq::<Seq<char>>::empty();
            assert(seq![s] =~= seq![s] + none);
            lemma_without_blank_end_front(s, none);
            let k = line_len(t) as int;
            if k < t.len() {
                let head = s + t.take(k);
                assert(u.take(n + k) =~= head);
                assert forall|i: int| 0 <= i < t.take(k).len() implies is_white(
                    #[trigger] t.take(k)[i],
                ) by {
                    assert(t.take(k)[i] == t[i]);
                }
                lemma_first_line_extended(s, t.take(k));
                let rest = u.skip(n + k + 1);
                assert(rest =~= t.skip(k + 1));
                assert forall|i: int| 0 <= i < rest.len() implies is_white(#[trigger] rest[i]) by {
                    assert(rest[i] == t[i + k + 1]);
                }
                lemma_blank_lines(rest);
                lemma_without_blank_end_front(without_cr(head), lines_of(rest));
                assert(lines_of(u) =~= seq![without_cr(head)] + lines_of(rest));
                assert(line_words(content_lines(u)) =~= line_words(content_lines(s)));
                assert(shown_lines(content_lines(u)) =~= shown_lines(content_lines(s)));
            } else {
                lemma_first_line_extended(s, t);
                assert(seq![u] =~= seq![u] + none);
                lemma_without_blank_end_front(u, none);
                assert(line_words(content_lines(u)) =~= line_words(content_lines(s)));
                assert(shown_lines(content_lines(u)) =~= shown_lines(content_lines(s)));
            }
        }
    }
}

/// `lcmp` says the same whatever white space and blank lines stand at the end
/// of the output or of the answer.
pub proof fn comparing_lines_ignores_trailing_blanks(
    output: Seq<char>,
    answer: Seq<char>,
    blanks: Seq<char>,
    more_blanks: Seq<char>,
)
    requires
        is_blank(blanks),
        is_blank(more_blanks),
    ensures
        lines_verdict(output + blanks, answer + more_blanks) == lines_verdict(output, answer),
{
    trailing_blanks_are_insignificant(output, blanks);
    trailing_blanks_are_insignificant(answer, more_blanks);
    let a = content_lines(output);
    let b = content_lines(answer);
    let c = content_lines(output + blanks);
    let d = content_lines(answer + more_blanks);
    assert(line_words(a).len() == a.len() && line_words(c).len() == c.len());
    assert(line_words(b).len() == b.len() && line_words(d).len() == d.len());
    let i = agreement(line_words(a), line_words(b)) as int;
    if i < a.len() && i < b.len() {
        assert(shown_lines(a)[i] == shown_lines(c)[i]);
        assert(shown_lines(b)[i] == shown_lines(d)[i]);
    }
}

// ---------------------------------------------------------------------------
// Reals
// ---------------------------------------------------------------------------

/// An infinite value is close to the infinite values of its sign, and to
/// nothing else; and what is no number is close to nothing but its like.
pub proof fn infinite_values_are_close_to_their_like(pair: RealPair)
    ensures
        pair.expected_kind is Huge ==> (is_close(pair) <==> pair.found_kind == pair.expected_kind),
        pair.found_kind is Huge ==> (is_close(pair) <==> pair.found_kind == pair.expected_kind),
        pair.expected_kind is NotANumber || pair.found_kind is NotANumber ==> (is_close(pair)
            <==> pair.found_kind == pair.expected_kind),
{
}

/// Among ordinary values either error may be within the tolerance: the
/// absolute or the relative one.
pub proof fn either_error_is_enough(pair: RealPair)
    requires
        pair.expected_kind == RealKind::Ordinary,
        pair.found_kind == RealKind::Ordinary,
    ensures
        is_close(pair) <==> pair.near || pair.between,
{
}

/// Whether the same two values were measured, the second time with no smaller
/// a tolerance.
pub open spec fn is_looser(strict: RealPair, loose: RealPair) -> bool {
    &&& strict.expected_kind == loose.expected_kind
    &&& strict.found_kind == loose.found_kind
    &&& strict.near ==> loose.near
    &&& strict.between ==> loose.between
}

/// Where the second measurement finds close whatever the first does, `rcmp`
/// accepts by the second whatever it accepts by the first.
pub proof fn closeness_decides_acceptance(
    output: Seq<char>,
    answer: Seq<char>,
    eps: Seq<char>,
    pairs: Seq<RealPair>,
    other_eps: Seq<char>,
    other_pairs: Seq<RealPair>,
)
    requires
        reals_comparable(output, answer) ==> pairs.len() == words(output).len()
            && other_pairs.len() == words(output).len(),
        forall|i: int|
            0 <= i < pairs.len() && is_close(#[trigger] pairs[i]) ==> is_close(other_pairs[i]),
        reals_verdict(output, answer, eps, pairs) is None,
    ensures
        reals_verdict(output, answer, other_eps, other_pairs) is None,
{
    real_acceptance(output, answer, eps, pairs);
    real_acceptance(output, answer, other_eps, other_pairs);
    assert forall|i: int| 0 <= i < other_pairs.len() implies is_close(#[trigger] other_pairs[i]) by {
        assert(is_close(pairs[i]));
    }
}

/// A checker of reals with a larger tolerance accepts whatever one with a
/// smaller tolerance accepts: what `rcmp9` accepts `rcmp6` accepts, and what
/// `rcmp6` accepts `rcmp4` accepts.
pub proof fn larger_tolerances_accept_more(
    strict: BuiltinChecker,
    loose: BuiltinChecker,
    output: Seq<char>,
    answer: Seq<char>,
    strict_pairs: Seq<RealPair>,
    loose_pairs: Seq<RealPair>,
)
    requires
        compares_reals(strict),
        compares_reals(loose),
        pairs_fit(strict, output, answer, strict_pairs),
        pairs_fit(loose, output, answer, loose_pairs),
        forall|i: int|
            0 <= i < strict_pairs.len() ==> is_looser(#[trigger] strict_pairs[i], loose_pairs[i]),
        check_verdict(strict, output, answer, strict_pairs) is None,
    ensures
        check_verdict(loose, output, answer, loose_pairs) is None,
{
    closeness_decides_acceptance(
        output,
        answer,
        tolerance_text(strict),
        strict_pairs,
        tolerance_text(loose),
        loose_pairs,
    );
}

// ---------------------------------------------------------------------------
// Symmetry
// ---------------------------------------------------------------------------

/// The checkers of tokens, lines, integers and `YES`/`NO` accept an output for
/// an answer exactly when they accept the answer for the output.
pub proof fn exact_checkers_accept_symmetrically(
    c: BuiltinChecker,
    output: Seq<char>,
    answer: Seq<char>,
    pairs: Seq<RealPair>,
)
    requires
        !compares_reals(c),
    ensures
        check_verdict(c, output, answer, pairs) is None <==> check_verdict(c, answer, output, pairs)
            is None,
{
    token_acceptance(output, answer);
    token_acceptance(answer, output);
    line_acceptance(output, answer);
    line_acceptance(answer, output);
    integer_acceptance(output, answer);
    integer_acceptance(answer, output);
    yes_no_acceptance(output, answer);
    yes_no_acceptance(answer, output);
}

} // verus!
