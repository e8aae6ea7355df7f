//! What holds of words, lines, numbers and spans of time whatever they are.

use vstd::prelude::*;
use vstd::string::*;

use crate::checker_laws::spacing_is_insignificant;
use crate::number::{
    decimal, digits_value, int_text, is_digit, last_digits, lemma_decimal_value, unsigned_value,
};
use crate::text::{
    is_white, joined, left_aligned, lemma_line_len, lemma_word_len, line_len, lines_of,
    right_aligned, texts, tokens, trimmed, trimmed_end, trimmed_start, word_len, words, words_of,
};

verus! {

// ---------------------------------------------------------------------------
// White space and words
// ---------------------------------------------------------------------------

/// The white space characters are those of Unicode.
pub proof fn white_space_is_that_of_unicode(c: char)
    ensures
        is_white(c) <==> {
            let n = c as int;
            ||| 9 <= n <= 13
            ||| n == 32
            ||| n == 133
            ||| n == 160
            ||| n == 5760
            ||| 8192 <= n <= 8202
            ||| n == 8232
            ||| n == 8233
            ||| n == 8239
            ||| n == 8287
            ||| n == 12288
        },
{
}

/// Whether every text is a word: not empty, and free of white space.
pub open spec fn are_words(v: Seq<Seq<char>>) -> bool {
    forall|i: int|
        #![trigger v[i]]
        0 <= i < v.len() ==> v[i].len() > 0 && forall|j: int|
            0 <= j < v[i].len() ==> !is_white(#[trigger] v[i][j])
}

/// A text without white space is its own only word, however long it is.
pub proof fn a_text_without_white_space_is_one_word(s: Seq<char>)
    requires
        s.len() > 0,
        forall|i: int| 0 <= i < s.len() ==> !is_white(#[trigger] s[i]),
    ensures
        words(s) == seq![s],
{
    lemma_word_len(s);
    assert(!is_white(s[0]));
    let n = word_len(s) as int;
    if n < s.len() {
        assert(is_white(s[n]));
    }
    assert(s.take(n) =~= s);
    let rest = s.skip(n);
    assert(rest.len() == 0);
    assert(words(rest) =~= Seq::<Seq<char>>::empty());
    assert(words(s) =~= seq![s]);
}

/// Words put together with spaces between them are found again, all of them,
/// whole and in their order.
pub proof fn words_are_found_again(v: Seq<Seq<char>>)
    requires
        are_words(v),
    ensures
        words(joined(v, seq![' '])) == v,
    decreases v.len(),
{
    let space = seq![' '];
    assert(is_white(' '));
    if v.len() == 0 {
        assert(words(joined(v, space)) =~= v);
    } else if v.len() == 1 {
        a_text_without_white_space_is_one_word(v[0]);
        assert(seq![v[0]] =~= v);
    } else {
        let front = v.drop_last();
        assert forall|i: int| #![trigger front[i]] 0 <= i < front.len() implies front[i].len() > 0
            && forall|j: int| 0 <= j < front[i].len() ==> !is_white(#[trigger] front[i][j]) by {
            assert(front[i] == v[i]);
        }
        words_are_found_again(front);
        a_text_without_white_space_is_one_word(v[v.len() - 1]);
        spacing_is_insignificant(joined(front, space), space, space, v.last());
        assert(front + seq![v.last()] =~= v);
    }
}

/// What the words of a text are: none is empty or holds white space, and every
/// character that is not white space is in one of them, in its place.
pub proof fn words_hold_everything_but_white_space(s: Seq<char>)
    ensures
        are_words(words(s)),
        joined(words(s), seq![]) == s.filter(|c: char| !is_white(c)),
    decreases s.len(),
{
    let dense = |c: char| !is_white(c);
    let none = Seq::<char>::empty();
    if s.len() == 0 {
        assert(s =~= none);
        reveal(Seq::filter);
    } else if is_white(s[0]) {
        let t = s.skip(1);
        words_hold_everything_but_white_space(t);
        assert(s =~= seq![s[0]] + t);
        Seq::filter_distributes_over_add(seq![s[0]], t, dense);
        lemma_filter_one(s[0], dense);
        assert(none + t.filter(dense) =~= t.filter(dense));
    } else {
        lemma_word_len(s);
        let n = word_len(s) as int;
        let w = s.take(n);
        let t = s.skip(n);
        words_hold_everything_but_white_space(t);
        assert(s =~= w + t);
        Seq::filter_distributes_over_add(w, t, dense);
        assert forall|i: int| 0 <= i < w.len() implies dense(#[trigger] w[i]) by {
            assert(w[i] == s[i]);
        }
        lemma_filter_all(w, dense);
        let v = words(s);
        assert(v =~= seq![w] + words(t));
        joining_is_piecewise(seq![w], words(t), none);
        assert(joined(seq![w], none) == w);
        if words(t).len() == 0 {
            assert(joined(words(t), none) =~= none);
            assert(v =~= seq![w]);
            assert(w + none =~= w);
        } else {
            assert(w + none + joined(words(t), none) =~= w + joined(words(t), none));
        }
        assert forall|i: int| #![trigger v[i]] 0 <= i < v.len() implies v[i].len() > 0 && forall|
            j: int,
        |
            0 <= j < v[i].len() ==> !is_white(#[trigger] v[i][j]) by {
            if i == 0 {
                assert(v[i] == w);
                assert forall|j: int| 0 <= j < w.len() implies !is_white(#[trigger] w[j]) by {
                    assert(w[j] == s[j]);
                }
            } else {
                assert(v[i] == words(t)[i - 1]);
            }
        }
    }
}

proof fn lemma_filter_one(c: char, keep: spec_fn(char) -> bool)
    ensures
        seq![c].filter(keep) == (if keep(c) {
            seq![c]
        } else {
            seq![]
        }),
{
    reveal(Seq::filter);
    let one = seq![c];
    assert(one.drop_last() =~= Seq::<char>::empty());
    assert(one.drop_last().filter(keep) =~= Seq::<char>::empty());
    assert(one.last() == c);
    assert(Seq::<char>::empty().push(c) =~= one);
}

proof fn lemma_filter_all(s: Seq<char>, keep: spec_fn(char) -> bool)
    requires
        forall|i: int| 0 <= i < s.len() ==> keep(#[trigger] s[i]),
    ensures
        s.filter(keep) == s,
    decreases s.len(),
{
    reveal(Seq::filter);
    if s.len() > 0 {
        let t = s.drop_last();
        assert forall|i: int| 0 <= i < t.len() implies keep(#[trigger] t[i]) by {
            assert(t[i] == s[i]);
        }
        lemma_filter_all(t, keep);
        assert(keep(s[s.len() - 1]));
        assert(t.push(s.last()) =~= s);
    } else {
        assert(s.filter(keep) =~= s);
    }
}

/// Any white space ends a word: the words around it are those of the two parts.
pub proof fn white_space_divides_words(a: Seq<char>, c: char, b: Seq<char>)
    requires
        is_white(c),
    ensures
        words(a + seq![c] + b) == words(a) + words(b),
{
    spacing_is_insignificant(a, seq![c], seq![' '], b);
}

/// Splitting a text gives its words: those that it was put together from, where it
/// was put together from words.
pub proof fn tokens_are_the_words(
    t: &str,
    chars: &[char],
    v: Seq<Seq<char>>,
    res: Vec<String>,
    of_chars: Vec<String>,
)
    requires
        call_ensures(tokens, (t,), res),
        call_ensures(words_of, (chars,), of_chars),
    ensures
        texts(res@) == words(t@),
        texts(of_chars@) == words(chars@),
        are_words(v) && t@ == joined(v, seq![' ']) ==> texts(res@) == v,
        are_words(v) && chars@ == joined(v, seq![' ']) ==> texts(of_chars@) == v,
{
    if are_words(v) {
        words_are_found_again(v);
    }
}

// ---------------------------------------------------------------------------
// Lines and trimming
// ---------------------------------------------------------------------------

/// A line feed ends a line, together with a carriage return in front of it; the
/// rest of the text follows. A text without one is a line, unless it is empty.
pub proof fn lines_end_at_line_feeds(a: Seq<char>, b: Seq<char>)
    requires
        forall|i: int| 0 <= i < a.len() ==> #[trigger] a[i] != '\n',
    ensures
        lines_of(Seq::<char>::empty()).len() == 0,
        a.len() > 0 ==> lines_of(a) == seq![a],
        a.len() > 0 && a.last() == '\r' ==> lines_of(a + seq!['\n'] + b) == seq![a.drop_last()]
            + lines_of(b),
        a.len() == 0 || a.last() != '\r' ==> lines_of(a + seq!['\n'] + b) == seq![a] + lines_of(b),
{
    lemma_line_len(a);
    if line_len(a) < a.len() {
        assert(a[line_len(a) as int] == '\n');
    }
    let s = a + seq!['\n'] + b;
    lemma_line_len(s);
    let n = line_len(s) as int;
    if n < a.len() {
        assert(s[n] == a[n]);
    }
    assert(s[a.len() as int] == '\n');
    if n > a.len() {
        assert(s[a.len() as int] != '\n');
    }
    assert(s.take(n) =~= a);
    assert(s.skip(n + 1) =~= b);
}

/// Whether a text is white space throughout.
pub open spec fn is_all_white(s: Seq<char>) -> bool {
    forall|i: int| 0 <= i < s.len() ==> is_white(#[trigger] s[i])
}

/// Whether a text neither starts nor ends with white space.
pub open spec fn has_dense_ends(s: Seq<char>) -> bool {
    s.len() > 0 ==> !is_white(s[0]) && !is_white(s.last())
}

/// Trimming takes away the white space at the ends, all of it and nothing else.
pub proof fn trimming_takes_away_the_blank_ends(a: Seq<char>, t: Seq<char>, b: Seq<char>)
    requires
        is_all_white(a),
        is_all_white(b),
    ensures
        t.len() == 0 || !is_white(t.last()) ==> trimmed_end(t + b) == t,
        has_dense_ends(t) ==> trimmed(a + t + b) == t,
{
    if t.len() == 0 || !is_white(t.last()) {
        lemma_trimmed_end(t, b);
    }
    if has_dense_ends(t) {
        if t.len() == 0 {
            let all = a + t + b;
            assert forall|i: int| 0 <= i < all.len() implies is_white(#[trigger] all[i]) by {
                if i < a.len() {
                    assert(all[i] == a[i]);
                } else {
                    assert(all[i] == b[i - a.len()]);
                }
            }
            let none = Seq::<char>::empty();
            assert(all =~= all + none);
            lemma_trimmed_start(all, none);
            assert(t =~= none);
        } else {
            assert((t + b)[0] == t[0]);
            assert(a + t + b =~= a + (t + b));
            lemma_trimmed_start(a, t + b);
        }
    }
}

proof fn lemma_trimmed_end(t: Seq<char>, b: Seq<char>)
    requires
        is_all_white(b),
        t.len() == 0 || !is_white(t.last()),
    ensures
        trimmed_end(t + b) == t,
    decreases b.len(),
{
    if b.len() == 0 {
        assert(t + b =~= t);
    } else {
        let c = b.drop_last();
        assert forall|i: int| 0 <= i < c.len() implies is_white(#[trigger] c[i]) by {
            assert(c[i] == b[i]);
        }
        lemma_trimmed_end(t, c);
        assert(is_white(b[b.len() - 1]));
        assert((t + b).last() == b.last());
        assert((t + b).drop_last() =~= t + c);
    }
}

proof fn lemma_trimmed_start(a: Seq<char>, t: Seq<char>)
    requires
        is_all_white(a),
        t.len() == 0 || !is_white(t[0]),
    ensures
        trimmed_start(a + t) == t,
    decreases a.len(),
{
    if a.len() == 0 {
        assert(a + t =~= t);
    } else {
        let c = a.skip(1);
        assert forall|i: int| 0 <= i < c.len() implies is_white(#[trigger] c[i]) by {
            assert(c[i] == a[i + 1]);
        }
        lemma_trimmed_start(c, t);
        assert(is_white(a[0]));
        assert((a + t)[0] == a[0]);
        assert((a + t).skip(1) =~= c + t);
    }
}

// ---------------------------------------------------------------------------
// Putting texts together
// ---------------------------------------------------------------------------

/// Nothing is put together to nothing, one part to itself, and two runs of
/// parts to the one, the separator and the other.
pub proof fn joining_is_piecewise(a: Seq<Seq<char>>, b: Seq<Seq<char>>, sep: Seq<char>)
    ensures
        a.len() == 0 ==> joined(a, sep).len() == 0,
        a.len() == 1 ==> joined(a, sep) == a[0],
        a.len() > 0 && b.len() > 0 ==> joined(a + b, sep) == joined(a, sep) + sep + joined(b, sep),
    decreases b.len(),
{
    if a.len() > 0 && b.len() == 1 {
        assert((a + b).drop_last() =~= a);
        assert((a + b).last() == b[0]);
    } else if a.len() > 0 && b.len() > 1 {
        joining_is_piecewise(a, b.drop_last(), sep);
        assert((a + b).drop_last() =~= a + b.drop_last());
        assert((a + b).last() == b.last());
        assert(joined(a + b, sep) =~= joined(a, sep) + sep + joined(b, sep));
    }
}

/// Padding keeps a text whole and adds spaces on one side only, up to the width.
pub proof fn padding_keeps_the_text(s: Seq<char>, width: nat)
    ensures
        ({
            let l = left_aligned(s, width);
            let r = right_aligned(s, width);
            let n = if s.len() < width {
                width
            } else {
                s.len()
            };
            &&& l.len() == n && r.len() == n
            &&& l.take(s.len() as int) == s
            &&& r.skip(n - s.len()) == s
            &&& forall|i: int| s.len() <= i < n ==> #[trigger] l[i] == ' '
            &&& forall|i: int| 0 <= i < n - s.len() ==> #[trigger] r[i] == ' '
        }),
{
    let l = left_aligned(s, width);
    let r = right_aligned(s, width);
    assert(l.take(s.len() as int) =~= s);
    assert(r.skip(r.len() - s.len()) =~= s);
}

// ---------------------------------------------------------------------------
// Numbers
// ---------------------------------------------------------------------------

/// The notation of a number is positional: one more digit behind it makes the
/// number ten times as large, and that digit is added.
pub proof fn notation_is_positional(n: nat, d: nat, c: char)
    requires
        d < 10,
        c as int == '0' as int + d,
    ensures
        decimal(d) == seq![c],
        n > 0 ==> decimal(10 * n + d) == decimal(n).push(c),
{
    assert((10 * n + d) / 10 == n);
    assert((10 * n + d) % 10 == d);
}

/// A number is written with a minus sign exactly when it is negative, in front of
/// the notation of its magnitude.
pub proof fn negative_numbers_have_a_sign(n: nat)
    ensures
        int_text(n as int) == decimal(n),
        n > 0 ==> int_text(-(n as int)) == seq!['-'] + decimal(n),
{
}

/// The last digits of a number are what its notation ends in, with zeros in front
/// where it has fewer digits.
pub proof fn last_digits_end_the_notation(n: nat, places: nat)
    ensures
        last_digits(n, places).len() == places,
        decimal(n).len() >= places ==> last_digits(n, places) == decimal(n).skip(
            decimal(n).len() - places,
        ),
        decimal(n).len() < places ==> last_digits(n, places) == Seq::new(
            (places - decimal(n).len()) as nat,
            |i: int| '0',
        ) + decimal(n),
    decreases places,
{
    if places > 0 {
        let p = (places - 1) as nat;
        last_digits_end_the_notation(n / 10, p);
        let s = decimal(n);
        if n < 10 {
            lemma_zeros(p);
            assert(n / 10 == 0);
            if p == 0 {
                assert(last_digits(n, places) =~= s.skip(s.len() - places));
            } else {
                assert(last_digits(n, places) =~= Seq::new(
                    (places - s.len()) as nat,
                    |i: int| '0',
                ) + s);
            }
        } else {
            let t = decimal(n / 10);
            if s.len() >= places {
                assert(last_digits(n, places) =~= s.skip(s.len() - places));
            } else {
                assert(last_digits(n, places) =~= Seq::new(
                    (places - s.len()) as nat,
                    |i: int| '0',
                ) + s);
            }
        }
    } else {
        assert(last_digits(n, places) =~= decimal(n).skip(decimal(n).len() as int));
    }
}

proof fn lemma_zeros(places: nat)
    ensures
        last_digits(0, places) == Seq::new(places, |i: int| '0'),
    decreases places,
{
    if places > 0 {
        lemma_zeros((places - 1) as nat);
    }
    assert(last_digits(0, places) =~= Seq::new(places, |i: int| '0'));
}

/// The notation of a number is read back as that number, with or without a plus
/// sign and zeros in front of it, unless it does not fit into 64 bits.
pub proof fn numbers_are_read_back(n: nat, zeros: nat)
    ensures
        ({
            let padded = Seq::new(zeros, |i: int| '0') + decimal(n);
            let expected = if n <= u64::MAX {
                Some(n)
            } else {
                None
            };
            &&& unsigned_value(padded) == expected
            &&& unsigned_value(seq!['+'] + padded) == expected
        }),
{
    lemma_decimal_value(n);
    let padded = Seq::new(zeros, |i: int| '0') + decimal(n);
    lemma_leading_zeros(zeros, decimal(n));
    assert forall|i: int| 0 <= i < padded.len() implies is_digit(#[trigger] padded[i]) by {
        if i >= zeros {
            assert(is_digit(decimal(n)[i - zeros]));
        }
    }
    assert(is_digit(padded[0]));
    assert((seq!['+'] + padded).skip(1) =~= padded);
}

proof fn lemma_leading_zeros(zeros: nat, s: Seq<char>)
    ensures
        digits_value(Seq::new(zeros, |i: int| '0') + s) == digits_value(s),
    decreases zeros + s.len(),
{
    let z = Seq::new(zeros, |i: int| '0');
    if s.len() > 0 {
        assert((z + s).drop_last() =~= z + s.drop_last());
        assert((z + s).last() == s.last());
        lemma_leading_zeros(zeros, s.drop_last());
    } else {
        assert(z + s =~= z);
        if zeros > 0 {
            let fewer = (zeros - 1) as nat;
            let y = Seq::new(fewer, |i: int| '0');
            assert(z.drop_last() =~= y);
            assert(y + s =~= y);
            lemma_leading_zeros(fewer, s);
        }
    }
}

/// Only digits, with at most a plus sign in front, are read as a number.
pub proof fn only_digits_are_numbers(s: Seq<char>)
    requires
        unsigned_value(s) is Some,
    ensures
        s.len() > 0,
        forall|i: int|
            0 <= i < s.len() ==> '0' <= #[trigger] s[i] <= '9' || (i == 0 && s[i] == '+' && s.len()
                > 1),
{
    if s[0] == '+' {
        let body = s.skip(1);
        assert forall|i: int| 0 <= i < s.len() implies '0' <= #[trigger] s[i] <= '9' || (i == 0
            && s[i] == '+' && s.len() > 1) by {
            if i > 0 {
                assert(is_digit(body[i - 1]));
            }
        }
    }
}

} // verus!
