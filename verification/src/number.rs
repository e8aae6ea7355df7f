//! Numbers as text: decimal notation and its strict and lenient readings.

use vstd::prelude::*;
use vstd::string::*;

use crate::text::chars_of;

verus! {

/// The character for the digit `d`.
pub open spec fn digit(d: nat) -> char {
    (48 + d) as char
}

/// Whether a character is one of `0` to `9`.
pub open spec fn is_digit(c: char) -> bool {
    '0' <= c <= '9'
}

/// The number a digit stands for.
pub open spec fn digit_value(c: char) -> nat {
    (c as int - 48) as nat
}

/// `n` in decimal notation.
pub open spec fn decimal(n: nat) -> Seq<char>
    decreases n,
{
    if n < 10 {
        seq![digit(n)]
    } else {
        decimal(n / 10).push(digit(n % 10))
    }
}

/// `i` in decimal notation, with a minus sign when it is negative.
pub open spec fn int_text(i: int) -> Seq<char> {
    if i < 0 {
        seq!['-'] + decimal((-i) as nat)
    } else {
        decimal(i as nat)
    }
}

/// The last `places` decimal digits of `n`.
pub open spec fn last_digits(n: nat, places: nat) -> Seq<char>
    decreases places,
{
    if places == 0 {
        seq![]
    } else {
        last_digits(n / 10, (places - 1) as nat).push(digit(n % 10))
    }
}

/// Whether every character is a digit.
pub open spec fn all_digits(s: Seq<char>) -> bool {
    forall|i: int| 0 <= i < s.len() ==> is_digit(#[trigger] s[i])
}

/// The number that a sequence of digits stands for.
pub open spec fn digits_value(s: Seq<char>) -> nat
    decreases s.len(),
{
    if s.len() == 0 {
        0
    } else {
        digits_value(s.drop_last()) * 10 + digit_value(s.last())
    }
}

/// Digits without a redundant leading zero.
pub open spec fn is_canonical(s: Seq<char>) -> bool {
    &&& s.len() > 0
    &&& all_digits(s)
    &&& s.len() > 1 ==> s[0] != '0'
}

/// The decimal notation of a number is canonical and stands for that number.
pub proof fn lemma_decimal_value(n: nat)
    ensures
        is_canonical(decimal(n)),
        digits_value(decimal(n)) == n,
        n > 0 ==> decimal(n)[0] != '0',
    decreases n,
{
    if n < 10 {
        let s = decimal(n);
        assert(s.drop_last() =~= Seq::<char>::empty());
        assert(digits_value(s.drop_last()) == 0);
    } else {
        lemma_decimal_value(n / 10);
        let s = decimal(n);
        assert(s.drop_last() =~= decimal(n / 10));
        assert(s[0] == decimal(n / 10)[0]);
        assert forall|i: int| 0 <= i < s.len() implies is_digit(#[trigger] s[i]) by {
            if i < s.len() - 1 {
                assert(s[i] == decimal(n / 10)[i]);
            }
        }
    }
}

/// Canonical digits are the decimal notation of the number they stand for.
pub proof fn lemma_canonical_is_decimal(s: Seq<char>)
    requires
        is_canonical(s),
    ensures
        decimal(digits_value(s)) == s,
        s[0] != '0' ==> digits_value(s) > 0,
    decreases s.len(),
{
    let v = digits_value(s);
    let d = digit_value(s.last());
    assert(is_digit(s.last()));
    if s.len() == 1 {
        assert(s.drop_last() =~= Seq::<char>::empty());
        assert(digits_value(s.drop_last()) == 0);
        assert(decimal(v) =~= s);
    } else {
        let t = s.drop_last();
        assert(t[0] == s[0]);
        assert forall|i: int| 0 <= i < t.len() implies is_digit(#[trigger] t[i]) by {
            assert(t[i] == s[i]);
        }
        lemma_canonical_is_decimal(t);
        assert(v == digits_value(t) * 10 + d);
        assert(v / 10 == digits_value(t) && v % 10 == d);
        assert(decimal(v) =~= s);
    }
}

/// Two numbers with the same notation are the same number.
pub proof fn lemma_int_text_injective(a: int, b: int)
    requires
        int_text(a) == int_text(b),
    ensures
        a == b,
{
    lemma_int_text_shape(a);
    lemma_int_text_shape(b);
    let s = int_text(a);
    if a < 0 {
        assert(s.skip(1) =~= decimal((-a) as nat));
        assert(b < 0);
        assert(int_text(b).skip(1) =~= decimal((-b) as nat));
        lemma_decimal_value((-a) as nat);
        lemma_decimal_value((-b) as nat);
    } else {
        assert(b >= 0);
        lemma_decimal_value(a as nat);
        lemma_decimal_value(b as nat);
    }
}

/// A notation starts with a minus sign exactly when the number is negative.
pub proof fn lemma_int_text_shape(i: int)
    ensures
        int_text(i).len() > 0,
        int_text(i)[0] == '-' <==> i < 0,
{
    lemma_decimal_value(if i < 0 {
        (-i) as nat
    } else {
        i as nat
    });
    if i >= 0 {
        assert(is_digit(int_text(i)[0]));
    }
}

/// Appends `n` in decimal notation.
pub fn push_decimal(out: &mut String, n: u128)
    ensures
        final(out)@ == old(out)@ + decimal(n as nat),
    decreases n,
{
    let ghost before = out@;
    if n >= 10 {
        push_decimal(out, n / 10);
    }
    let d: u8 = (n % 10) as u8;
    out.push((48 + d) as char);
    assert(out@ =~= before + decimal(n as nat));
}

/// Appends `i` in decimal notation.
pub fn push_int(out: &mut String, i: i64)
    ensures
        final(out)@ == old(out)@ + int_text(i as int),
{
    let ghost before = out@;
    if i < 0 {
        out.push('-');
        let wide: i128 = i as i128;
        push_decimal(out, (-wide) as u128);
    } else {
        push_decimal(out, i as u128);
    }
    assert(out@ =~= before + int_text(i as int));
}

/// Appends the last `places` decimal digits of `n`.
pub fn push_last_digits(out: &mut String, n: u128, places: u32)
    ensures
        final(out)@ == old(out)@ + last_digits(n as nat, places as nat),
    decreases places,
{
    let ghost before = out@;
    if places > 0 {
        push_last_digits(out, n / 10, places - 1);
        let d: u8 = (n % 10) as u8;
        out.push((48 + d) as char);
    }
    assert(out@ =~= before + last_digits(n as nat, places as nat));
}

/// The value of the digits in `chars[start..]`, if they are digits and their
/// value is at most `max`.
fn read_digits(chars: &[char], start: usize, max: u64) -> (res: Option<u64>)
    requires
        start <= chars@.len(),
    ensures
        res matches Some(v) ==> all_digits(chars@.skip(start as int)) && v == digits_value(
            chars@.skip(start as int),
        ) && v <= max,
        res is None ==> !all_digits(chars@.skip(start as int)) || digits_value(
            chars@.skip(start as int),
        ) > max,
{
    let ghost body = chars@.skip(start as int);
    let mut value: u64 = 0;
    let mut i: usize = start;
    let mut fits = true;
    assert(body.take(0) =~= Seq::<char>::empty());
    while i < chars.len()
        invariant
            start <= i <= chars@.len(),
            body == chars@.skip(start as int),
            all_digits(body.take(i - start)),
            fits ==> value == digits_value(body.take(i - start)) && value <= max,
            !fits ==> digits_value(body.take(i - start)) > max,
        decreases chars@.len() - i,
    {
        let c = chars[i];
        assert(body[i - start] == c);
        if !('0' <= c && c <= '9') {
            return None;
        }
        let d: u64 = (c as u32 - 48) as u64;
        proof {
            let next = body.take(i + 1 - start);
            assert(next.drop_last() =~= body.take(i - start));
            assert(next.last() == c);
            assert(digits_value(next) == digits_value(body.take(i - start)) * 10 + d);
            assert forall|j: int| 0 <= j < next.len() implies is_digit(#[trigger] next[j]) by {
                if j < i - start {
                    assert(next[j] == body.take(i - start)[j]);
                }
            }
        }
        if fits {
            let wide: u128 = value as u128 * 10 + d as u128;
            if wide <= max as u128 {
                value = wide as u64;
            } else {
                fits = false;
            }
        }
        i += 1;
    }
    assert(body.take(chars@.len() - start) =~= body);
    if fits {
        Some(value)
    } else {
        None
    }
}

/// Reads a 64-bit integer written exactly as `int_text` writes it: an optional
/// leading `-`, and no `+`, no redundant leading zero, no `-0`.
pub fn parse_long(t: &str) -> (res: Option<i64>)
    ensures
        res matches Some(v) ==> t@ == int_text(v as int),
        res is None ==> forall|v: i64| t@ != #[trigger] int_text(v as int),
{
    let chars = chars_of(t);
    let n = chars.len();
    let negative = n > 0 && chars[0] == '-';
    let start: usize = if negative {
        1
    } else {
        0
    };
    let ghost body = chars@.skip(start as int);
    proof {
        // Whatever this text denotes is canonical digits behind the sign.
        assert forall|v: i64| t@ == #[trigger] int_text(v as int) implies is_canonical(body)
            && digits_value(body) == (if v < 0 {
            -(v as int)
        } else {
            v as int
        }) && (negative <==> v < 0) by {
            lemma_int_text_shape(v as int);
            if v < 0 {
                lemma_decimal_value((-v) as nat);
                assert(body =~= decimal((-v) as nat));
            } else {
                lemma_decimal_value(v as nat);
                assert(body =~= decimal(v as nat));
            }
        }
    }
    if start == n {
        return None;
    }
    assert(body[0] == chars@[start as int]);
    if n - start > 1 && chars[start] == '0' {
        return None;
    }
    let limit: u64 = if negative {
        0x8000_0000_0000_0000
    } else {
        0x7fff_ffff_ffff_ffff
    };
    match read_digits(&chars, start, limit) {
        None => None,
        Some(v) => {
            if negative && v == 0 {
                return None;
            }
            proof {
                lemma_canonical_is_decimal(body);
            }
            if negative {
                let wide: i128 = -(v as i128);
                assert(t@ =~= seq!['-'] + body);
                Some(wide as i64)
            } else {
                assert(t@ =~= body);
                Some(v as i64)
            }
        },
    }
}

/// The unsigned 64-bit number that `s` denotes: digits, with at most one `+`
/// in front of them.
pub open spec fn unsigned_value(s: Seq<char>) -> Option<nat> {
    let body = if s.len() > 0 && s[0] == '+' {
        s.skip(1)
    } else {
        s
    };
    if body.len() > 0 && all_digits(body) && digits_value(body) <= u64::MAX {
        Some(digits_value(body))
    } else {
        None
    }
}

/// Reads an unsigned 64-bit number.
pub fn parse_unsigned(t: &str) -> (res: Option<u64>)
    ensures
        unsigned_value(t@) == (match res {
            Some(v) => Some(v as nat),
            None => None,
        }),
{
    let chars = chars_of(t);
    let start: usize = if chars.len() > 0 && chars[0] == '+' {
        1
    } else {
        0
    };
    assert(chars@.skip(0) =~= chars@);
    if start == chars.len() {
        return None;
    }
    read_digits(&chars, start, u64::MAX)
}

} // verus!
