//! What the figures in messages and reports show of times and sizes.

use vstd::arithmetic::div_mod::lemma_fundamental_div_mod;
use vstd::prelude::*;
use vstd::string::*;

use crate::double::{
    fraction, half_even, lemma_half_even_bounds, lemma_scale, lemma_ulp_pow2,
    milliseconds_are_printed_faithfully, nearest_double, rounded_seconds, scale, seconds_as_double,
    spans_are_rounded_to_the_nearest, ulp, TWO_53,
};
use crate::duration::{
    hundredths_text, push_hundredths, push_tenths, push_thousandths, tenths_text, thousandths_text,
    Duration,
};
use crate::judge::format_memory;
use crate::number::{decimal, last_digits};
use crate::report::fmt_duration;

verus! {

/// Rounding gives the nearest integer: the quotient is off by half at most, and where
/// two are equally near it is the even one.
pub proof fn rounding_is_to_the_nearest_and_halves_to_even(num: nat, den: nat)
    requires
        den > 0,
    ensures
        2 * (half_even(num, den) * den) <= 2 * num + den,
        2 * num <= 2 * (half_even(num, den) * den) + den,
        2 * (half_even(num, den) * den) == 2 * num + den || 2 * num == 2 * (half_even(num, den)
            * den) + den ==> half_even(num, den) % 2 == 0,
{
    let q = num / den;
    let r = num % den;
    let h = half_even(num, den);
    lemma_fundamental_div_mod(num as int, den as int);
    assert(num == q * den + r) by (nonlinear_arith)
        requires
            num == den * q + r,
    ;
    assert((q + 1) * den == q * den + den) by (nonlinear_arith);
    assert(r < den);
}

/// An integer of up to 53 bits is a double itself, and any other is off by a 2 to the
/// 53rd part of itself at most.
pub proof fn doubles_are_close_to_integers(n: nat)
    ensures
        n < 0x20_0000_0000_0000 ==> nearest_double(n) == n,
        (nearest_double(n) - n) * 0x20_0000_0000_0000 <= n,
        (n - nearest_double(n)) * 0x20_0000_0000_0000 <= n,
{
    let u = ulp(n);
    lemma_ulp_pow2(n);
    lemma_half_even_bounds(n, u);
    let h = half_even(n, u);
    let r = nearest_double(n);
    if n < TWO_53 {
        assert(u == 1);
        assert(n / 1 == n && n % 1 == 0);
        assert(h * 1 == h);
    } else {
        lemma_fundamental_div_mod(n as int, u as int);
        assert(u * 0x10_0000_0000_0000 <= n) by (nonlinear_arith)
            requires
                n == u * (n as int / u as int) + n as int % u as int,
                n as int % u as int >= 0,
                n as int / u as int >= 0x10_0000_0000_0000,
                u >= 1,
        ;
        assert(2 * r <= 2 * n + u && 2 * n <= 2 * r + u) by (nonlinear_arith)
            requires
                r == h * u,
                2 * h * u <= 2 * n + u,
                2 * n <= 2 * h * u + u,
        ;
    }
}

/// Whether an integer is the nearest to a quotient, the even one of two that are
/// equally near.
pub open spec fn is_rounded(num: nat, den: nat, t: nat) -> bool {
    &&& 2 * (t * den) <= 2 * num + den
    &&& 2 * num <= 2 * (t * den) + den
    &&& 2 * (t * den) == 2 * num + den || 2 * num == 2 * (t * den) + den ==> t % 2 == 0
}

proof fn lemma_rounded_once(num: nat, den: nat, s: nat, t: nat)
    requires
        den > 0,
        is_rounded(num, den, s),
        is_rounded(num, den, t),
        s <= t,
    ensures
        s == t,
{
    if s + 1 < t {
        assert(t * den >= s * den + 2 * den) by (nonlinear_arith)
            requires
                t >= s + 2,
                den > 0,
        ;
    } else if s + 1 == t {
        assert(t * den == s * den + den) by (nonlinear_arith)
            requires
                t == s + 1,
        ;
    }
}

proof fn lemma_rounded(num: nat, den: nat, t: nat)
    requires
        den > 0,
        is_rounded(num, den, t),
    ensures
        half_even(num, den) == t,
{
    rounding_is_to_the_nearest_and_halves_to_even(num, den);
    let h = half_even(num, den);
    if h <= t {
        lemma_rounded_once(num, den, h, t);
    } else {
        lemma_rounded_once(num, den, t, h);
    }
}

/// Sizes are told to the nearest tenth of a megabyte from a megabyte on, and to the
/// nearest kilobyte below. Those of more than 53 bits are taken as the nearest double.
pub proof fn sizes_are_told_to_the_nearest(bytes: u64, t: nat, res: String)
    requires
        call_ensures(format_memory, (bytes,), res),
    ensures
        1_048_576 <= bytes < 0x20_0000_0000_0000 && is_rounded(bytes as nat * 10, 1_048_576, t)
            ==> res@ == decimal(t / 10) + seq!['.'] + decimal(t % 10) + " MB"@,
        bytes >= 0x20_0000_0000_0000 && is_rounded(
            nearest_double(bytes as nat) * 10,
            1_048_576,
            t,
        ) ==> res@ == decimal(t / 10) + seq!['.'] + decimal(t % 10) + " MB"@,
        bytes < 1_048_576 && is_rounded(bytes as nat, 1024, t) ==> res@ == decimal(t) + " KB"@,
{
    reveal_strlit(".");
    assert("."@ =~= seq!['.']);
    let n = bytes as nat;
    doubles_are_close_to_integers(n);
    lemma_one_digit(t);
    if bytes >= 1_048_576 {
        if is_rounded(nearest_double(n) * 10, 1_048_576, t) {
            lemma_rounded(nearest_double(n) * 10, 1_048_576, t);
        }
    } else if is_rounded(n, 1024, t) {
        lemma_rounded(n, 1024, t);
    }
}

proof fn lemma_one_digit(t: nat)
    ensures
        last_digits(t, 1) == decimal(t % 10),
{
    assert(last_digits(t / 10, 0) =~= Seq::<char>::empty());
    assert(last_digits(t, 1) =~= decimal(t % 10));
}

/// Whether `k` is the whole number of units nearest to a span, there being `unit` of
/// them in a second.
pub open spec fn is_nearest(d: nat, unit: nat, k: nat) -> bool {
    &&& 2 * (d * unit) < 2 * (k * 1_000_000_000) + 1_000_000_000
    &&& 2 * (d * unit) > 2 * (k * 1_000_000_000) - 1_000_000_000
}

/// Times below 2 to the 21st seconds are told to the nearest tenth, hundredth or
/// thousandth of a second.
pub proof fn times_are_told_to_the_nearest(d: nat, k: nat)
    requires
        d < 0x20_0000 * 1_000_000_000,
    ensures
        is_nearest(d, 10, k) ==> tenths_text(d) == decimal(k / 10) + seq!['.'] + last_digits(k, 1),
        is_nearest(d, 100, k) ==> hundredths_text(d) == decimal(k / 100) + seq!['.'] + last_digits(
            k,
            2,
        ),
        is_nearest(d, 1000, k) ==> thousandths_text(d) == decimal(k / 1000) + seq!['.']
            + last_digits(k, 3),
{
    reveal_strlit(".");
    assert("."@ =~= seq!['.']);
    let secs = d / 1_000_000_000;
    let nanos = d % 1_000_000_000;
    assert(secs * 1_000_000_000 + nanos == d);
    if is_nearest(d, 10, k) {
        spans_are_rounded_to_the_nearest(secs, nanos, 10, k);
    }
    if is_nearest(d, 100, k) {
        spans_are_rounded_to_the_nearest(secs, nanos, 100, k);
    }
    if is_nearest(d, 1000, k) {
        spans_are_rounded_to_the_nearest(secs, nanos, 1000, k);
    }
}

/// A whole number of milliseconds is told exactly, up to 2 to the 43rd seconds.
pub proof fn whole_milliseconds_are_told_exactly(k: nat)
    requires
        k < 0x800_0000_0000 * 1000,
    ensures
        thousandths_text(k * 1_000_000) == decimal(k / 1000) + seq!['.'] + last_digits(k, 3),
{
    reveal_strlit(".");
    assert("."@ =~= seq!['.']);
    let d = k * 1_000_000;
    milliseconds_are_printed_faithfully(d / 1_000_000_000, d % 1_000_000_000, k);
}

/// What is appended is the time as it is told, and nothing before it is touched.
pub proof fn times_are_appended(out: &mut String, d: Duration)
    ensures
        call_ensures(push_tenths, (out, d), ()) ==> final(out)@ == old(out)@ + tenths_text(d@),
        call_ensures(push_hundredths, (out, d), ()) ==> final(out)@ == old(out)@ + hundredths_text(
            d@,
        ),
        call_ensures(push_thousandths, (out, d), ()) ==> final(out)@ == old(out)@
            + thousandths_text(d@),
{
}

/// A span below a second is told in whole milliseconds, a longer one in seconds with
/// two decimals.
pub proof fn short_spans_are_told_in_milliseconds(d: Duration, ms: nat, rest: nat, res: String)
    requires
        rest < 1_000_000,
        call_ensures(fmt_duration, (d,), res),
    ensures
        ms < 1000 && d@ == ms * 1_000_000 + rest ==> res@ == decimal(ms) + " ms"@,
        d@ >= 1_000_000_000 ==> res@ == hundredths_text(d@) + " s"@,
{
    assert((ms * 1_000_000 + rest) / 1_000_000 == ms);
}

/// A span is made of its whole seconds and the nanoseconds beyond them, and its whole
/// milliseconds leave out less than one.
pub proof fn spans_are_taken_apart(
    d: Duration,
    secs: u64,
    nanos: u32,
    millis: u128,
    whole: Duration,
)
    requires
        call_ensures(Duration::as_secs, (d,), secs),
        call_ensures(Duration::subsec_nanos, (d,), nanos),
        call_ensures(Duration::as_millis, (d,), millis),
        call_ensures(Duration::to_millis, (d,), whole),
    ensures
        nanos < 1_000_000_000,
        secs * 1_000_000_000 + nanos == d@,
        millis * 1_000_000 <= d@ < millis * 1_000_000 + 1_000_000,
        whole@ == millis * 1_000_000,
{
}

/// A span that is put together from seconds and nanoseconds, or from milliseconds,
/// is as long as they are.
pub proof fn spans_are_put_together(
    secs: u64,
    nanos: u32,
    millis: u64,
    of_parts: Duration,
    of_millis: Duration,
    none: Duration,
)
    requires
        call_ensures(Duration::new, (secs, nanos), of_parts),
        call_ensures(Duration::from_millis, (millis,), of_millis),
        call_ensures(Duration::zero, (), none),
    ensures
        of_parts@ == secs * 1_000_000_000 + nanos,
        of_millis@ == millis * 1_000_000,
        none@ == 0,
{
}

/// Spans are compared and added by their length. No sum is longer than the longest
/// span.
pub proof fn spans_are_compared_and_added(
    a: Duration,
    b: Duration,
    longest: Duration,
    reached: bool,
    sum: Duration,
)
    requires
        call_ensures(Duration::max, (), longest),
        call_ensures(Duration::reaches, (a, b), reached),
        call_ensures(Duration::plus, (a, b), sum),
    ensures
        reached <==> b@ <= a@,
        longest@ == 18_446_744_073_709_551_615 * 1_000_000_000 + 999_999_999,
        a@ + b@ <= longest@ ==> sum@ == a@ + b@,
        a@ + b@ > longest@ ==> sum@ == longest@,
{
}

proof fn lemma_scaled(s: nat, low: nat, high: nat)
    requires
        s > 0,
        s * low <= s * high,
    ensures
        low <= high,
{
    if low > high {
        assert(s * low > s * high) by (nonlinear_arith)
            requires
                s > 0,
                low > high,
        ;
    }
}

proof fn lemma_told_closely(secs: nat, nanos: nat, unit: nat)
    requires
        nanos < 1_000_000_000,
        0 < unit <= 1000,
    ensures
        ({
            let d = secs * 1_000_000_000 + nanos;
            let h = rounded_seconds(secs, nanos, unit);
            &&& h * 1_000_000_000 * 0x20_0000_0000_0000 <= (d * unit) * 0x20_0000_0000_0003
                + 1_000_000_000 * 0x20_0000_0000_0000
            &&& (d * unit) * 0x1f_ffff_ffff_fffe <= h * 1_000_000_000 * 0x20_0000_0000_0000
                + 1_000_000_000 * 0x20_0000_0000_0000
        }),
{
    let den: nat = 1_000_000_000;
    let s = scale(nanos, den);
    let f = fraction(nanos);
    let q = nearest_double(secs);
    let x = q * s + f;
    let y = seconds_as_double(secs, nanos);
    let h = rounded_seconds(secs, nanos, unit);
    let d = secs * den + nanos;
    doubles_are_close_to_integers(secs);
    doubles_are_close_to_integers(x);
    if nanos > 0 {
        lemma_scale(nanos, den);
        assert(s >= 0x1000_0000) by (nonlinear_arith)
            requires
                nanos * s >= den * 0x10_0000_0000_0000,
                0 < nanos < 1_000_000_000,
                den == 1_000_000_000,
        ;
    } else {
        assert(s == 1);
        assert(f == 0) by {
            assert(nanos * s == 0) by (nonlinear_arith)
                requires
                    nanos == 0,
            ;
        }
    }
    rounding_is_to_the_nearest_and_halves_to_even(nanos * s, den);
    rounding_is_to_the_nearest_and_halves_to_even(y * unit, s);
    let qs = q * s;
    let whole = secs * s;
    let part = nanos * s;
    let hs = h * s;
    let yu = y * unit;
    let xu = x * unit;
    let exact = (whole * den + part) * unit;
    assert(qs * 0x20_0000_0000_0000 <= whole * 0x20_0000_0000_0001) by (nonlinear_arith)
        requires
            q * 0x20_0000_0000_0000 <= secs * 0x20_0000_0000_0001,
            qs == q * s,
            whole == secs * s,
    ;
    assert(whole * 0x1f_ffff_ffff_ffff <= qs * 0x20_0000_0000_0000) by (nonlinear_arith)
        requires
            secs * 0x1f_ffff_ffff_ffff <= q * 0x20_0000_0000_0000,
            qs == q * s,
            whole == secs * s,
    ;
    let slip: nat = if nanos > 0 {
        1_000_000_000
    } else {
        0
    };
    assert(2 * (f * den) <= 2 * part + slip && 2 * part <= 2 * (f * den) + slip) by {
        if nanos == 0 {
            assert(part == 0) by (nonlinear_arith)
                requires
                    part == nanos * s,
                    nanos == 0,
            ;
        }
    }
    let total = whole * den + part;
    assert(2 * x * den * 0x20_0000_0000_0000 <= 2 * total * 0x20_0000_0000_0001 + slip
        * 0x20_0000_0000_0000);
    assert(2 * total * 0x1f_ffff_ffff_ffff <= 2 * x * den * 0x20_0000_0000_0000 + slip
        * 0x20_0000_0000_0000);
    lemma_times_unit(x, y, total, slip, unit);
    let small = slip * unit;
    assert(small * 0x20_0000_0000_0001 <= s * den * 0x20_0000_0000_0000) by {
        if nanos > 0 {
            assert(small <= 1_000_000_000 * 1000) by (nonlinear_arith)
                requires
                    small == slip * unit,
                    slip <= 1_000_000_000,
                    unit <= 1000,
            ;
        } else {
            assert(small == 0) by (nonlinear_arith)
                requires
                    small == slip * unit,
                    slip == 0,
            ;
        }
    }
    assert(exact == s * (d * unit)) by (nonlinear_arith)
        requires
            exact == (whole * den + part) * unit,
            whole == secs * s,
            part == nanos * s,
            d == secs * den + nanos,
    ;
    assert(hs == s * h) by (nonlinear_arith)
        requires
            hs == h * s,
    ;
    lemma_close_up(s, hs, yu, xu, exact, small);
    lemma_close_down(s, hs, yu, xu, exact, small);
    let du = d * unit;
    assert(s * (h * den * 0x20_0000_0000_0000) == hs * den * 0x20_0000_0000_0000)
        by (nonlinear_arith)
        requires
            hs == s * h,
    ;
    assert(s * (du * 0x20_0000_0000_0003 + den * 0x20_0000_0000_0000) == exact
        * 0x20_0000_0000_0003 + s * den * 0x20_0000_0000_0000) by (nonlinear_arith)
        requires
            exact == s * du,
    ;
    lemma_scaled(
        s,
        h * den * 0x20_0000_0000_0000,
        du * 0x20_0000_0000_0003 + den * 0x20_0000_0000_0000,
    );
    assert(s * (du * 0x1f_ffff_ffff_fffe) == exact * 0x1f_ffff_ffff_fffe) by (nonlinear_arith)
        requires
            exact == s * du,
    ;
    assert(s * (h * den * 0x20_0000_0000_0000 + den * 0x20_0000_0000_0000) == hs * den
        * 0x20_0000_0000_0000 + s * den * 0x20_0000_0000_0000) by (nonlinear_arith)
        requires
            hs == s * h,
    ;
    lemma_scaled(
        s,
        du * 0x1f_ffff_ffff_fffe,
        h * den * 0x20_0000_0000_0000 + den * 0x20_0000_0000_0000,
    );
}

proof fn lemma_times_unit(x: nat, y: nat, total: nat, slip: nat, unit: nat)
    requires
        2 * x * 1_000_000_000 * 0x20_0000_0000_0000 <= 2 * total * 0x20_0000_0000_0001 + slip
            * 0x20_0000_0000_0000,
        2 * total * 0x1f_ffff_ffff_ffff <= 2 * x * 1_000_000_000 * 0x20_0000_0000_0000 + slip
            * 0x20_0000_0000_0000,
        (y - x) * 0x20_0000_0000_0000 <= x,
        (x - y) * 0x20_0000_0000_0000 <= x,
    ensures
        2 * (x * unit) * 1_000_000_000 * 0x20_0000_0000_0000 <= 2 * (total * unit)
            * 0x20_0000_0000_0001 + (slip * unit) * 0x20_0000_0000_0000,
        2 * (total * unit) * 0x1f_ffff_ffff_ffff <= 2 * (x * unit) * 1_000_000_000
            * 0x20_0000_0000_0000 + (slip * unit) * 0x20_0000_0000_0000,
        (y * unit) * 0x20_0000_0000_0000 <= (x * unit) * 0x20_0000_0000_0001,
        (x * unit) * 0x1f_ffff_ffff_ffff <= (y * unit) * 0x20_0000_0000_0000,
{
    let xu = x * unit;
    let yu = y * unit;
    let tu = total * unit;
    let su = slip * unit;
    assert(2 * xu * 1_000_000_000 * 0x20_0000_0000_0000 <= 2 * tu * 0x20_0000_0000_0001 + su
        * 0x20_0000_0000_0000) by (nonlinear_arith)
        requires
            2 * x * 1_000_000_000 * 0x20_0000_0000_0000 <= 2 * total * 0x20_0000_0000_0001 + slip
                * 0x20_0000_0000_0000,
            xu == x * unit,
            tu == total * unit,
            su == slip * unit,
    ;
    assert(2 * tu * 0x1f_ffff_ffff_ffff <= 2 * xu * 1_000_000_000 * 0x20_0000_0000_0000 + su
        * 0x20_0000_0000_0000) by (nonlinear_arith)
        requires
            2 * total * 0x1f_ffff_ffff_ffff <= 2 * x * 1_000_000_000 * 0x20_0000_0000_0000 + slip
                * 0x20_0000_0000_0000,
            xu == x * unit,
            tu == total * unit,
            su == slip * unit,
    ;
    assert(yu * 0x20_0000_0000_0000 <= xu * 0x20_0000_0000_0001) by (nonlinear_arith)
        requires
            y * 0x20_0000_0000_0000 <= x * 0x20_0000_0000_0001,
            xu == x * unit,
            yu == y * unit,
    ;
    assert(xu * 0x1f_ffff_ffff_ffff <= yu * 0x20_0000_0000_0000) by (nonlinear_arith)
        requires
            x * 0x1f_ffff_ffff_ffff <= y * 0x20_0000_0000_0000,
            xu == x * unit,
            yu == y * unit,
    ;
}

proof fn lemma_close_up(s: nat, hs: nat, yu: nat, xu: nat, exact: nat, small: nat)
    requires
        2 * hs <= 2 * yu + s,
        yu * 0x20_0000_0000_0000 <= xu * 0x20_0000_0000_0001,
        2 * xu * 1_000_000_000 * 0x20_0000_0000_0000 <= 2 * exact * 0x20_0000_0000_0001 + small
            * 0x20_0000_0000_0000,
        small * 0x20_0000_0000_0001 <= s * 1_000_000_000 * 0x20_0000_0000_0000,
    ensures
        hs * 1_000_000_000 * 0x20_0000_0000_0000 <= exact * 0x20_0000_0000_0003 + s * 1_000_000_000
            * 0x20_0000_0000_0000,
{
}

proof fn lemma_close_down(s: nat, hs: nat, yu: nat, xu: nat, exact: nat, small: nat)
    requires
        2 * yu <= 2 * hs + s,
        xu * 0x1f_ffff_ffff_ffff <= yu * 0x20_0000_0000_0000,
        2 * exact * 0x1f_ffff_ffff_ffff <= 2 * xu * 1_000_000_000 * 0x20_0000_0000_0000 + small
            * 0x20_0000_0000_0000,
        small * 0x20_0000_0000_0001 <= s * 1_000_000_000 * 0x20_0000_0000_0000,
    ensures
        exact * 0x1f_ffff_ffff_fffe <= hs * 1_000_000_000 * 0x20_0000_0000_0000 + s * 1_000_000_000
            * 0x20_0000_0000_0000,
{
}

/// Whether `k` stands for a span in units of which `unit` make a second: off by one
/// at most, and by what the 53 bits of a double leave out.
pub open spec fn is_close_to(d: nat, unit: nat, k: nat) -> bool {
    &&& k * 1_000_000_000 * 0x20_0000_0000_0000 <= (d * unit) * 0x20_0000_0000_0003 + 1_000_000_000
        * 0x20_0000_0000_0000
    &&& (d * unit) * 0x1f_ffff_ffff_fffe <= k * 1_000_000_000 * 0x20_0000_0000_0000 + 1_000_000_000
        * 0x20_0000_0000_0000
}

/// However long a time is, what is told of it is close to it.
pub proof fn long_times_are_told_closely(d: nat) -> (k: (nat, nat, nat))
    ensures
        is_close_to(d, 10, k.0),
        is_close_to(d, 100, k.1),
        is_close_to(d, 1000, k.2),
        tenths_text(d) == decimal(k.0 / 10) + seq!['.'] + last_digits(k.0, 1),
        hundredths_text(d) == decimal(k.1 / 100) + seq!['.'] + last_digits(k.1, 2),
        thousandths_text(d) == decimal(k.2 / 1000) + seq!['.'] + last_digits(k.2, 3),
{
    reveal_strlit(".");
    assert("."@ =~= seq!['.']);
    let secs = d / 1_000_000_000;
    let nanos = d % 1_000_000_000;
    assert(secs * 1_000_000_000 + nanos == d);
    lemma_told_closely(secs, nanos, 10);
    lemma_told_closely(secs, nanos, 100);
    lemma_told_closely(secs, nanos, 1000);
    (
        rounded_seconds(secs, nanos, 10),
        rounded_seconds(secs, nanos, 100),
        rounded_seconds(secs, nanos, 1000),
    )
}

} // verus!
