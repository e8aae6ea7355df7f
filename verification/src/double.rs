//! What binary floating point makes of times and sizes, in exact integer
//! arithmetic.
//!
//! Reports print seconds and megabytes the way an IEEE double shows them with
//! a fixed number of decimals. A double holds 53 significant bits and rounds
//! halves to even, and so does printing; both are stated here over integers.

use vstd::arithmetic::div_mod::*;
use vstd::arithmetic::power2::*;
use vstd::prelude::*;

verus! {

/// 2 to the 53rd: from here on not every integer is a double.
pub const TWO_53: u64 = 0x20_0000_0000_0000;

/// `num / den`, rounded to the nearest integer, halves to even.
pub open spec fn half_even(num: nat, den: nat) -> nat {
    let q = num / den;
    let r = num % den;
    if 2 * r < den || (2 * r == den && q % 2 == 0) {
        q
    } else {
        q + 1
    }
}

/// The distance between neighbouring doubles around `n`, but at least one.
pub open spec fn ulp(n: nat) -> nat
    decreases n,
{
    if n < TWO_53 {
        1
    } else {
        2 * ulp(n / 2)
    }
}

/// The double nearest to the integer `n`.
pub open spec fn nearest_double(n: nat) -> nat {
    half_even(n, ulp(n)) * ulp(n)
}

/// The least power of two that brings `num / den`, a number below one, to at
/// least 2 to the 52nd, so that its integer part has 53 bits.
pub open spec fn scale(num: nat, den: nat) -> nat
    decreases
            (if num < den * 0x10_0000_0000_0000 {
                den * 0x10_0000_0000_0000 - num
            } else {
                0
            }),
{
    if num == 0 || num >= den * 0x10_0000_0000_0000 {
        1
    } else {
        2 * scale(2 * num, den)
    }
}

/// How many parts of a second the nanoseconds of a duration are as a double,
/// there being `scale(nanos, 10^9)` parts.
pub open spec fn fraction(nanos: nat) -> nat {
    half_even(nanos * scale(nanos, 1_000_000_000), 1_000_000_000)
}

/// A duration in seconds as a double, in parts of a second: the sum of the
/// double of the whole seconds and the double of the fraction, rounded to a
/// double again.
pub open spec fn seconds_as_double(secs: nat, nanos: nat) -> nat {
    nearest_double(nearest_double(secs) * scale(nanos, 1_000_000_000) + fraction(nanos))
}

/// A duration in units of which `unit` make a second, as printing the double
/// with that precision rounds it.
pub open spec fn rounded_seconds(secs: nat, nanos: nat, unit: nat) -> nat {
    half_even(seconds_as_double(secs, nanos) * unit, scale(nanos, 1_000_000_000))
}

/// Rounds a quotient with its remainder.
fn round(q: u128, r: u128, den: u128) -> (res: u128)
    requires
        r < den,
        q < 0x8000_0000_0000_0000_0000_0000_0000_0000,
    ensures
        forall|num: nat|
            num / den as nat == q && num % den as nat == r ==> res == #[trigger] half_even(
                num,
                den as nat,
            ),
        res == q || res == q + 1,
{
    let rest = den - r;
    if r < rest || (r == rest && q % 2 == 0) {
        q
    } else {
        q + 1
    }
}

/// `num / den`, rounded to the nearest integer, halves to even.
pub fn round_div(num: u128, den: u128) -> (res: u128)
    requires
        den > 0,
        num < 0x8000_0000_0000_0000_0000_0000_0000_0000,
    ensures
        res == half_even(num as nat, den as nat),
{
    assert(num / den <= num) by (nonlinear_arith)
        requires
            den > 0,
    ;
    round(num / den, num % den, den)
}

/// A power of two.
pub open spec fn is_pow2(u: nat) -> bool {
    exists|k: nat| u == #[trigger] pow2(k)
}

proof fn lemma_pow2_double(u: nat)
    requires
        is_pow2(u),
    ensures
        is_pow2(2 * u),
{
    let k = choose|k: nat| u == #[trigger] pow2(k);
    lemma_pow2_unfold(k + 1);
    assert(2 * u == pow2(k + 1));
}

/// A power of two with which `n / u` has at most 53 bits, and all of them
/// unless `u` is one, is the distance between doubles around `n`.
proof fn lemma_ulp_unique(n: nat, k: nat)
    requires
        n / pow2(k) < TWO_53,
        k == 0 || n / pow2(k) >= 0x10_0000_0000_0000,
    ensures
        ulp(n) == pow2(k),
    decreases k,
{
    lemma_pow2_pos(k);
    if k == 0 {
        lemma2_to64();
        assert(n / 1 == n);
    } else {
        let u = pow2(k);
        let h = pow2((k - 1) as nat);
        lemma_pow2_pos((k - 1) as nat);
        lemma_pow2_unfold(k);
        assert(u == 2 * h);
        lemma_div_denominator(n as int, 2, h as int);
        assert((n / 2) / h == n / u);
        lemma_fundamental_div_mod(n as int, u as int);
        assert(n >= u * (n / u));
        assert(u * (n / u) >= 2 * 0x10_0000_0000_0000) by (nonlinear_arith)
            requires
                u == 2 * h,
                h >= 1,
                n / u >= 0x10_0000_0000_0000,
        ;
        if k == 1 {
            lemma2_to64();
            assert(n / 2 < TWO_53);
            assert(ulp(n / 2) == 1);
        } else {
            lemma_ulp_unique(n / 2, (k - 1) as nat);
        }
    }
}

pub proof fn lemma_ulp_pow2(n: nat)
    ensures
        is_pow2(ulp(n)),
        ulp(n) >= 1,
        n / ulp(n) < TWO_53,
        n >= TWO_53 ==> n / ulp(n) >= 0x10_0000_0000_0000 && ulp(n) >= 2,
    decreases n,
{
    if n < TWO_53 {
        lemma2_to64();
        assert(ulp(n) == pow2(0));
        assert(n / 1 == n);
    } else {
        lemma_ulp_pow2(n / 2);
        let h = ulp(n / 2);
        lemma_pow2_double(h);
        lemma_div_denominator(n as int, 2, h as int);
        assert(n / (2 * h) == (n / 2) / h);
        if n / 2 < TWO_53 {
            assert(h == 1);
            assert((n / 2) / 1 == n / 2);
        }
    }
}

/// The double nearest to an integer.
pub fn to_double(n: u64) -> (res: u128)
    ensures
        res == nearest_double(n as nat),
        res <= 0x2_0000_0000_0000_0000,
{
    let mut m: u64 = n;
    let mut u: u128 = 1;
    let ghost mut k: nat = 0;
    proof {
        lemma2_to64();
        assert(n as nat / 1 == n);
    }
    while m >= TWO_53
        invariant
            u == pow2(k),
            u >= 1,
            m == n as nat / u as nat,
            k == 0 || m >= 0x10_0000_0000_0000,
            m * u <= n,
        decreases m,
    {
        proof {
            lemma_pow2_unfold(k + 1);
            lemma_div_denominator(n as int, u as int, 2);
            assert((m / 2) * (2 * u) <= m * u) by (nonlinear_arith)
                requires
                    (m / 2) * 2 <= m,
                    u >= 1,
            ;
            assert(u <= n) by (nonlinear_arith)
                requires
                    m * u <= n,
                    m >= 1,
            ;
        }
        m = m / 2;
        u = u * 2;
        proof {
            k = k + 1;
        }
    }
    proof {
        lemma_ulp_unique(n as nat, k);
        assert(u <= 0x1000) by (nonlinear_arith)
            requires
                m * u <= n,
                n <= 0xffff_ffff_ffff_ffff,
                k == 0 || m >= 0x10_0000_0000_0000,
                u == pow2(k),
                k == 0 ==> u == 1,
        {
            if k != 0 {
                assert(0x10_0000_0000_0000 * u <= m * u) by (nonlinear_arith)
                    requires
                        m >= 0x10_0000_0000_0000,
                        u >= 0,
                ;
            }
        }
    }
    let r: u128 = n as u128 % u;
    let q = round(m as u128, r, u);
    proof {
        assert(q <= 0x20_0000_0000_0000);
        assert(q * u <= 0x20_0000_0000_0000 * 0x1000) by (nonlinear_arith)
            requires
                q <= 0x20_0000_0000_0000,
                u <= 0x1000,
                q >= 0,
                u >= 0,
        ;
    }
    q * u
}

pub proof fn lemma_scale(num: nat, den: nat)
    requires
        0 < num < den * TWO_53,
    ensures
        is_pow2(scale(num, den)),
        num * scale(num, den) >= den * 0x10_0000_0000_0000,
        num * scale(num, den) < den * TWO_53,
        scale(num, den) >= 1,
    decreases
            (if num < den * 0x10_0000_0000_0000 {
                den * 0x10_0000_0000_0000 - num
            } else {
                0
            }),
{
    if num >= den * 0x10_0000_0000_0000 {
        lemma2_to64();
        assert(scale(num, den) == pow2(0));
        assert(num * 1 == num);
    } else {
        lemma_scale(2 * num, den);
        let p = scale(2 * num, den);
        lemma_pow2_double(p);
        assert(num * (2 * p) == (2 * num) * p) by (nonlinear_arith);
    }
}

/// Rounding a quotient does not change when both parts are scaled.
proof fn lemma_half_even_scaled(num: nat, den: nat, c: nat)
    requires
        den > 0,
        c > 0,
    ensures
        half_even(num * c, den * c) == half_even(num, den),
{
    lemma_fundamental_div_mod(num as int, den as int);
    let q = num / den;
    let r = num % den;
    assert(num * c == q * (den * c) + r * c) by (nonlinear_arith)
        requires
            num == den * q + r,
    ;
    assert(0 <= r * c < den * c) by (nonlinear_arith)
        requires
            0 <= r < den,
            c > 0,
    ;
    lemma_fundamental_div_mod_converse(
        (num * c) as int,
        (den * c) as int,
        q as int,
        (r * c) as int,
    );
    assert(2 * (r * c) < den * c <==> 2 * r < den) by (nonlinear_arith)
        requires
            c > 0,
    ;
    assert(2 * (r * c) == den * c <==> 2 * r == den) by (nonlinear_arith)
        requires
            c > 0,
    ;
}

/// Rounding gives the quotient or the next integer.
pub proof fn lemma_half_even_bounds(num: nat, den: nat)
    requires
        den > 0,
    ensures
        num / den <= half_even(num, den) <= num / den + 1,
        2 * half_even(num, den) * den <= 2 * num + den,
        2 * num <= 2 * half_even(num, den) * den + den,
{
    lemma_fundamental_div_mod(num as int, den as int);
    let q = num / den;
    let r = num % den;
    assert((q + 1) * den == den * q + den && q * den == den * q) by (nonlinear_arith);
    assert(2 * half_even(num, den) * den == 2 * (half_even(num, den) * den)) by (nonlinear_arith);
}

/// The nanoseconds of a duration as parts of a second: the number of parts
/// and how many of them there are.
fn parts_of_second(nanos: u32) -> (res: (u128, u128))
    requires
        nanos < 1_000_000_000,
    ensures
        res.1 == scale(nanos as nat, 1_000_000_000),
        res.0 == fraction(nanos as nat),
        res.0 < res.1,
        is_pow2(res.1 as nat),
        res.1 <= 0x10_0000_0000_0000_0000_0000,
{
    if nanos == 0 {
        proof {
            lemma2_to64();
            assert(scale(0, 1_000_000_000) == pow2(0));
            assert(0 * scale(0, 1_000_000_000) == 0);
        }
        return (0, 1);
    }
    let den: u128 = 1_000_000_000;
    let bound: u128 = 0x10_0000_0000_0000 * 1_000_000_000;
    let mut top: u128 = nanos as u128;
    let mut p: u128 = 1;
    assert(nanos * 1 == nanos);
    while top < bound
        invariant
            0 < nanos < 1_000_000_000,
            den == 1_000_000_000,
            bound == 0x10_0000_0000_0000 * 1_000_000_000,
            0 < top < 2 * bound,
            p >= 1,
            top == nanos * p,
            scale(nanos as nat, 1_000_000_000) == p * scale(top as nat, 1_000_000_000),
        decreases 2 * bound - top,
    {
        proof {
            assert(p * (2 * scale(2 * top as nat, 1_000_000_000)) == (2 * p) * scale(
                2 * top as nat,
                1_000_000_000,
            )) by (nonlinear_arith);
            assert(nanos * (2 * p) == 2 * (nanos * p)) by (nonlinear_arith);
            assert(p <= nanos * p) by (nonlinear_arith)
                requires
                    nanos >= 1,
                    p >= 1,
            ;
        }
        top = top * 2;
        p = p * 2;
    }
    proof {
        assert(scale(top as nat, 1_000_000_000) == 1);
        assert(p * 1 == p);
        lemma_scale(nanos as nat, 1_000_000_000);
        assert(p <= top) by (nonlinear_arith)
            requires
                nanos >= 1,
                p >= 1,
                top == nanos * p,
        ;
    }
    let q: u128 = top / den;
    let r: u128 = top % den;
    let m = round(q, r, den);
    proof {
        assert(m == half_even(top as nat, den as nat));
        lemma_half_even_bounds(top as nat, den as nat);
        assert(p >= 0x10_0000_0000_0000) by (nonlinear_arith)
            requires
                top == nanos * p,
                nanos < 1_000_000_000,
                top >= 0x10_0000_0000_0000 * 1_000_000_000,
        ;
        // nanos/den is at least one part in den below one, far more than half
        // a part of the second.
        assert(m < p) by (nonlinear_arith)
            requires
                top == nanos * p,
                nanos <= den - 1,
                2 * m * den <= 2 * top + den,
                den == 1_000_000_000,
                p >= 0x10_0000_0000_0000,
        ;
    }
    (m, p)
}


/// Powers of two multiply to powers of two.
proof fn lemma_pow2_product(a: nat, b: nat)
    requires
        is_pow2(a),
        is_pow2(b),
    ensures
        is_pow2(a * b),
{
    let j = choose|k: nat| a == #[trigger] pow2(k);
    let k = choose|k: nat| b == #[trigger] pow2(k);
    lemma_pow2_adds(j, k);
}

/// The distance between doubles, found without its exponent.
proof fn lemma_ulp_is(n: nat, u: nat)
    requires
        is_pow2(u),
        n / u < TWO_53,
        u == 1 || n / u >= 0x10_0000_0000_0000,
    ensures
        ulp(n) == u,
{
    let k = choose|k: nat| u == #[trigger] pow2(k);
    if u == 1 {
        lemma2_to64();
        assert(n / 1 == n);
    } else {
        lemma_ulp_unique(n, k);
    }
}

/// A double is a whole number of the distances around it.
proof fn lemma_double_is_multiple(n: nat)
    ensures
        nearest_double(n) % ulp(nearest_double(n)) == 0,
        n < TWO_53 ==> nearest_double(n) == n,
        n >= TWO_53 ==> nearest_double(n) >= TWO_53,
{
    let u = ulp(n);
    let h = half_even(n, u);
    let d = nearest_double(n);
    lemma_ulp_pow2(n);
    lemma_half_even_bounds(n, u);
    if n < TWO_53 {
        assert(n / 1 == n && n % 1 == 0);
        assert(h == n);
        assert(d == n) by (nonlinear_arith)
            requires
                d == h * u,
                h == n,
                u == 1,
        ;
        assert(ulp(d) == 1);
        assert(d % 1 == 0);
    } else {
        assert(d >= TWO_53) by (nonlinear_arith)
            requires
                d == h * u,
                h >= 0x10_0000_0000_0000,
                u >= 2,
                TWO_53 == 2 * 0x10_0000_0000_0000,
        ;
        if h < TWO_53 {
            lemma_div_multiples_vanish(h as int, u as int);
            assert(d / u == h) by {
                assert(d == u * h) by (nonlinear_arith)
                    requires
                        d == h * u,
                ;
            }
            lemma_ulp_is(d, u);
            lemma_mod_multiples_basic(h as int, u as int);
        } else {
            let v = 2 * u;
            lemma_pow2_double(u);
            assert(d == 0x10_0000_0000_0000 * v) by (nonlinear_arith)
                requires
                    d == h * u,
                    h == 0x20_0000_0000_0000,
                    v == 2 * u,
            ;
            lemma_div_multiples_vanish(0x10_0000_0000_0000, v as int);
            assert(d / v == 0x10_0000_0000_0000) by {
                assert(d == v * 0x10_0000_0000_0000) by (nonlinear_arith)
                    requires
                        d == 0x10_0000_0000_0000 * v,
                ;
            }
            lemma_ulp_is(d, v);
            lemma_mod_multiples_basic(0x10_0000_0000_0000, v as int);
        }
    }
}

/// Adding less than one to a double of at least 2 to the 53rd gives it back.
proof fn lemma_large_sum(s: nat, p: nat, m: nat)
    requires
        s >= TWO_53,
        s % ulp(s) == 0,
        is_pow2(p),
        m < p,
    ensures
        nearest_double(s * p + m) == s * p,
{
    lemma_ulp_pow2(s);
    let v = ulp(s);
    let c = s / v;
    let u = v * p;
    let x = s * p + m;
    lemma_pow2_product(v, p);
    lemma_fundamental_div_mod(s as int, v as int);
    assert(x == c * u + m) by (nonlinear_arith)
        requires
            s == v * c,
            u == v * p,
            x == s * p + m,
    ;
    assert(2 * m < u) by (nonlinear_arith)
        requires
            u == v * p,
            v >= 2,
            m < p,
    ;
    lemma_fundamental_div_mod_converse(x as int, u as int, c as int, m as int);
    lemma_ulp_is(x, u);
    assert(half_even(x, u) == c);
    assert(c * u == s * p) by (nonlinear_arith)
        requires
            s == v * c,
            u == v * p,
    ;
}

/// A duration in units of which `unit` make a second, rounded as printing the
/// double with that precision does.
pub fn round_seconds(secs: u64, nanos: u32, unit: u64) -> (res: u128)
    requires
        nanos < 1_000_000_000,
        0 < unit <= 1000,
    ensures
        res == rounded_seconds(secs as nat, nanos as nat, unit as nat),
{
    let whole = to_double(secs);
    let (m, p) = parts_of_second(nanos);
    proof {
        lemma_double_is_multiple(secs as nat);
    }
    let ghost x: nat = (whole * p + m) as nat;
    assert(seconds_as_double(secs as nat, nanos as nat) == nearest_double(x));
    if whole >= TWO_53 as u128 {
        proof {
            lemma_large_sum(whole as nat, p as nat, m as nat);
            let sum = (whole * p) as nat;
            let out = (whole * unit) as nat;
            assert(sum * unit as nat == out * p as nat) by (nonlinear_arith)
                requires
                    sum == whole * p,
                    out == whole * unit,
            ;
            lemma_fundamental_div_mod_converse(
                (sum * unit as nat) as int,
                p as int,
                out as int,
                0,
            );
            assert(whole * unit <= 0x2_0000_0000_0000_0000 * 1000) by (nonlinear_arith)
                requires
                    0 <= whole <= 0x2_0000_0000_0000_0000,
                    0 <= unit <= 1000,
            ;
        }
        return whole * unit as u128;
    }
    let mut g: u128 = 1;
    let mut u: u128 = p;
    let ghost mut k: nat = choose|k: nat| p == #[trigger] pow2(k);
    proof {
        assert(m as nat / p as nat == 0) by {
            lemma_basic_div(m as int, p as int);
        }
        assert(whole * 1 == whole && whole * (2 * 1) == 2 * whole && 1 * p == p) by (nonlinear_arith);
    }
    while u > 1 && whole * (2 * g) + m / (u / 2) < TWO_53 as u128
        invariant
            whole < TWO_53,
            m < p,
            p <= 0x10_0000_0000_0000_0000_0000,
            g >= 1,
            u >= 1,
            g * u == p,
            g <= p,
            u == pow2(k),
            whole * g + m / u < TWO_53,
            whole * (2 * g) <= 2 * TWO_53,
        decreases u,
    {
        proof {
            lemma2_to64();
            assert(k > 0);
            lemma_pow2_unfold(k);
            lemma_pow2_pos((k - 1) as nat);
            assert((2 * g) * (u / 2) == g * u) by (nonlinear_arith)
                requires
                    u == 2 * (u / 2),
            ;
            k = (k - 1) as nat;
            assert(2 * g <= (2 * g) * (u / 2)) by (nonlinear_arith)
                requires
                    u / 2 >= 1,
                    g >= 1,
            ;
        }
        g = 2 * g;
        u = u / 2;
        assert(whole * (2 * g) == 2 * (whole * g)) by (nonlinear_arith);
    }
    let q: u128 = whole * g + m / u;
    let r: u128 = m % u;
    proof {
        lemma_fundamental_div_mod(m as int, u as int);
        assert(x == q * u + r) by (nonlinear_arith)
            requires
                x == whole * p + m,
                g * u == p,
                m == u * (m as int / u as int) + r,
                q == whole * g + m as int / u as int,
        ;
        lemma_fundamental_div_mod_converse(x as int, u as int, q as int, r as int);
        assert(is_pow2(u as nat));
        if u > 1 {
            lemma2_to64();
            lemma_pow2_unfold(k);
            lemma_pow2_pos((k - 1) as nat);
            let h = u as int / 2;
            lemma_fundamental_div_mod(m as int, h);
            let q2 = whole * (2 * g) + m as int / h;
            let r2 = m as int % h;
            assert(x == q2 * h + r2) by (nonlinear_arith)
                requires
                    x == whole * p + m,
                    g * u == p,
                    u == 2 * h,
                    m == h * (m as int / h) + r2,
                    q2 == whole * (2 * g) + m as int / h,
            ;
            lemma_fundamental_div_mod_converse(x as int, h, q2, r2);
            assert(x as int / h >= TWO_53);
            lemma_div_denominator(x as int, h, 2);
            assert(x as int / u as int == (x as int / h) / 2);
        }
        lemma_ulp_is(x, u as nat);
    }
    let t = round(q, r, u);
    assert(t * unit <= TWO_53 * 1000) by (nonlinear_arith)
        requires
            0 <= t <= TWO_53,
            0 <= unit <= 1000,
    ;
    let scaled: u128 = t * unit as u128;
    let res = round(scaled / g, scaled % g, g);
    proof {
        assert(t == half_even(x, u as nat));
        assert(nearest_double(x) == t * u);
        assert((t * u) * unit == scaled * u) by (nonlinear_arith)
            requires
                scaled == t * unit,
        ;
        lemma_half_even_scaled(scaled as nat, g as nat, u as nat);
    }
    res
}


/// Of two powers of two the lesser is at most half the greater, and divides it.
proof fn lemma_pow2_gap(a: nat, b: nat)
    requires
        is_pow2(a),
        is_pow2(b),
        a < b,
    ensures
        2 * a <= b,
        b % a == 0,
{
    let j = choose|k: nat| a == #[trigger] pow2(k);
    let k = choose|k: nat| b == #[trigger] pow2(k);
    lemma_pow2_pos(j);
    if k <= j {
        if k < j {
            lemma_pow2_strictly_increases(k, j);
        }
    } else {
        lemma_pow2_adds(j, (k - j) as nat);
        let c = pow2((k - j) as nat);
        lemma_pow2_unfold((k - j) as nat);
        lemma_pow2_pos((k - j - 1) as nat);
        assert(a * c == b);
        assert(2 * a <= a * c) by (nonlinear_arith)
            requires
                c >= 2,
        ;
        assert(b == c * a) by (nonlinear_arith)
            requires
                a * c == b,
        ;
        lemma_mod_multiples_basic(c as int, a as int);
    }
}

/// The least integer a rounded quotient can be.
proof fn lemma_half_even_at_least(num: nat, den: nat, k: nat)
    requires
        den > 0,
        2 * num > (2 * k - 1) * den,
    ensures
        half_even(num, den) >= k,
{
    lemma_fundamental_div_mod(num as int, den as int);
    let q = num / den;
    let r = num % den;
    if q < k {
        assert(q == k - 1 && 2 * r > den) by (nonlinear_arith)
            requires
                num == den * q + r,
                r < den,
                q < k,
                2 * num > (2 * k - 1) * den,
                den > 0,
        ;
    }
}

/// The greatest integer a rounded quotient can be.
proof fn lemma_half_even_at_most(num: nat, den: nat, k: nat)
    requires
        den > 0,
        2 * num < (2 * k + 1) * den,
    ensures
        half_even(num, den) <= k,
{
    lemma_fundamental_div_mod(num as int, den as int);
    let q = num / den;
    let r = num % den;
    if half_even(num, den) > k {
        assert(q <= k) by (nonlinear_arith)
            requires
                num == den * q + r,
                r >= 0,
                2 * num < (2 * k + 1) * den,
                den > 0,
        ;
        assert(q == k && 2 * r >= den);
        assert(false) by (nonlinear_arith)
            requires
                num == den * q + r,
                q == k,
                2 * r >= den,
                2 * num < (2 * k + 1) * den,
        ;
    }
}

/// Below 2 to the 43rd seconds a double is off by less than half a
/// millisecond. `e` stands for the double and `p` for the parts of a second.
proof fn lemma_double_error(secs: nat, nanos: nat)
    requires
        secs < 0x800_0000_0000,
        nanos < 1_000_000_000,
    ensures
        ({
            let p = scale(nanos, 1_000_000_000);
            let e = seconds_as_double(secs, nanos);
            let exact = (secs * 1_000_000_000 + nanos) * p;
            &&& p >= 1
            &&& 2 * (e * 1_000_000_000) < 2 * exact + 1_000_000 * p
            &&& 2 * (e * 1_000_000_000) > 2 * exact - 1_000_000 * p
        }),
{
    let den: nat = 1_000_000_000;
    let p = scale(nanos, den);
    let m = fraction(nanos);
    let e = seconds_as_double(secs, nanos);
    lemma_double_is_multiple(secs);
    let x = secs * p + m;
    assert(e == nearest_double(x));
    if nanos == 0 {
        assert(p == 1);
        assert(m == 0);
        assert(x == secs) by (nonlinear_arith)
            requires
                x == secs * p + m,
                p == 1,
                m == 0,
        ;
        assert(e == secs);
        assert((secs * den + 0) * 1 == e * den) by (nonlinear_arith)
            requires
                e == secs,
        ;
    } else {
        lemma_scale(nanos, den);
        let top = nanos * p;
        lemma_half_even_bounds(top, den);
        // The fraction is off by at most half a part.
        assert(2 * (m * den) <= 2 * top + den && 2 * top <= 2 * (m * den) + den) by (nonlinear_arith)
            requires
                2 * m * den <= 2 * top + den,
                2 * top <= 2 * m * den + den,
        ;
        assert(p > 0x10_0000_0000_0000) by (nonlinear_arith)
            requires
                top == nanos * p,
                nanos < 1_000_000_000,
                top >= 1_000_000_000 * 0x10_0000_0000_0000,
        ;
        assert(m < p) by (nonlinear_arith)
            requires
                2 * (m * den) <= 2 * top + den,
                top == nanos * p,
                nanos <= den - 1,
                den == 1_000_000_000,
                p >= 0x10_0000_0000_0000,
        ;
        let exact = (secs * den + nanos) * p;
        assert(x * den == secs * den * p + m * den) by (nonlinear_arith)
            requires
                x == secs * p + m,
        ;
        assert(exact == secs * den * p + top) by (nonlinear_arith)
            requires
                exact == (secs * den + nanos) * p,
                top == nanos * p,
        ;
        assert(2 * (x * den) <= 2 * exact + den && 2 * exact <= 2 * (x * den) + den);
        // The sum is off by at most half the distance between doubles.
        let u = ulp(x);
        lemma_ulp_pow2(x);
        lemma_half_even_bounds(x, u);
        let h = half_even(x, u);
        assert(2 * e <= 2 * x + u && 2 * x <= 2 * e + u) by (nonlinear_arith)
            requires
                e == h * u,
                2 * h * u <= 2 * x + u,
                2 * x <= 2 * h * u + u,
        ;
        // That distance is at most a 1024th of a second.
        assert(1024 * u <= p) by {
            if x >= TWO_53 {
                lemma_fundamental_div_mod(x as int, u as int);
                assert(u * 0x10_0000_0000_0000 <= x) by (nonlinear_arith)
                    requires
                        x == u * (x as int / u as int) + x as int % u as int,
                        x as int % u as int >= 0,
                        x as int / u as int >= 0x10_0000_0000_0000,
                        u >= 1,
                ;
                assert(x < 0x800_0000_0000 * p) by (nonlinear_arith)
                    requires
                        x == secs * p + m,
                        m < p,
                        secs + 1 <= 0x800_0000_0000,
                ;
                assert(512 * u < p);
                lemma2_to64();
                assert(is_pow2(512)) by {
                    assert(512 == pow2(9));
                }
                lemma_pow2_product(512, u);
                lemma_pow2_gap(512 * u, p);
            }
        }
        assert(2 * (e * den) <= 2 * (x * den) + u * den && 2 * (x * den) <= 2 * (e * den) + u * den)
            by (nonlinear_arith)
            requires
                2 * e <= 2 * x + u,
                2 * x <= 2 * e + u,
        ;
        assert(u * den + den < 1_000_000 * p) by (nonlinear_arith)
            requires
                1024 * u <= p,
                den == 1_000_000_000,
                p > 0x10_0000_0000_0000,
        ;
    }
}

/// Below 2 to the 21st seconds a double is off by less than half a nanosecond. `e`
/// stands for the double and `p` for the parts of a second.
proof fn lemma_small_double_error(secs: nat, nanos: nat)
    requires
        secs < 0x20_0000,
        nanos < 1_000_000_000,
    ensures
        ({
            let p = scale(nanos, 1_000_000_000);
            let e = seconds_as_double(secs, nanos);
            let exact = (secs * 1_000_000_000 + nanos) * p;
            &&& p >= 1
            &&& 2 * (e * 1_000_000_000) < 2 * exact + p
            &&& 2 * (e * 1_000_000_000) > 2 * exact - p
        }),
{
    let den: nat = 1_000_000_000;
    let p = scale(nanos, den);
    let m = fraction(nanos);
    let e = seconds_as_double(secs, nanos);
    lemma_double_is_multiple(secs);
    let x = secs * p + m;
    assert(e == nearest_double(x));
    if nanos == 0 {
        assert(p == 1);
        assert(m == 0);
        assert(x == secs) by (nonlinear_arith)
            requires
                x == secs * p + m,
                p == 1,
                m == 0,
        ;
        assert(e == secs);
        assert((secs * den + 0) * 1 == e * den) by (nonlinear_arith)
            requires
                e == secs,
        ;
    } else {
        lemma_scale(nanos, den);
        let top = nanos * p;
        lemma_half_even_bounds(top, den);
        // The fraction is off by at most half a part.
        assert(2 * (m * den) <= 2 * top + den && 2 * top <= 2 * (m * den) + den) by (nonlinear_arith)
            requires
                2 * m * den <= 2 * top + den,
                2 * top <= 2 * m * den + den,
        ;
        assert(p > 0x10_0000_0000_0000) by (nonlinear_arith)
            requires
                top == nanos * p,
                nanos < 1_000_000_000,
                top >= 1_000_000_000 * 0x10_0000_0000_0000,
        ;
        assert(m < p) by (nonlinear_arith)
            requires
                2 * (m * den) <= 2 * top + den,
                top == nanos * p,
                nanos <= den - 1,
                den == 1_000_000_000,
                p >= 0x10_0000_0000_0000,
        ;
        let exact = (secs * den + nanos) * p;
        assert(x * den == secs * den * p + m * den) by (nonlinear_arith)
            requires
                x == secs * p + m,
        ;
        assert(exact == secs * den * p + top) by (nonlinear_arith)
            requires
                exact == (secs * den + nanos) * p,
                top == nanos * p,
        ;
        assert(2 * (x * den) <= 2 * exact + den && 2 * exact <= 2 * (x * den) + den);
        // The sum is off by at most half the distance between doubles.
        let u = ulp(x);
        lemma_ulp_pow2(x);
        lemma_half_even_bounds(x, u);
        let h = half_even(x, u);
        assert(2 * e <= 2 * x + u && 2 * x <= 2 * e + u) by (nonlinear_arith)
            requires
                e == h * u,
                2 * h * u <= 2 * x + u,
                2 * x <= 2 * h * u + u,
        ;
        // That distance is below half a nanosecond.
        assert(0x7fff_ffff * u <= p) by {
            if x >= TWO_53 {
                lemma_fundamental_div_mod(x as int, u as int);
                assert(u * 0x10_0000_0000_0000 <= x) by (nonlinear_arith)
                    requires
                        x == u * (x as int / u as int) + x as int % u as int,
                        x as int % u as int >= 0,
                        x as int / u as int >= 0x10_0000_0000_0000,
                        u >= 1,
                ;
                assert(x < 0x20_0000 * p) by (nonlinear_arith)
                    requires
                        x == secs * p + m,
                        m < p,
                        secs + 1 <= 0x20_0000,
                ;
            }
        }
        assert(2 * (e * den) <= 2 * (x * den) + u * den && 2 * (x * den) <= 2 * (e * den) + u * den)
            by (nonlinear_arith)
            requires
                2 * e <= 2 * x + u,
                2 * x <= 2 * e + u,
        ;
        assert(u * den + den < p) by (nonlinear_arith)
            requires
                0x7fff_ffff * u <= p,
                den == 1_000_000_000,
                p > 0x10_0000_0000_0000,
        ;
    }
}

/// Printed with one, two or three decimals, a span below 2 to the 21st seconds shows
/// the nearest number of tenths, hundredths or milliseconds.
pub proof fn spans_are_rounded_to_the_nearest(secs: nat, nanos: nat, unit: nat, k: nat)
    requires
        secs < 0x20_0000,
        nanos < 1_000_000_000,
        unit == 10 || unit == 100 || unit == 1000,
        2 * ((secs * 1_000_000_000 + nanos) * unit) < 2 * (k * 1_000_000_000) + 1_000_000_000,
        2 * ((secs * 1_000_000_000 + nanos) * unit) > 2 * (k * 1_000_000_000) - 1_000_000_000,
    ensures
        rounded_seconds(secs, nanos, unit) == k,
{
    let p = scale(nanos, 1_000_000_000);
    let e = seconds_as_double(secs, nanos);
    let n = secs * 1_000_000_000 + nanos;
    let exact = n * p;
    lemma_small_double_error(secs, nanos);
    lemma_off_the_middle(n, unit, k);
    lemma_rounds_down(e, n, p, unit, k);
    lemma_half_even_at_most(e * unit, p, k);
    if k > 0 {
        lemma_rounds_up(e, n, p, unit, k);
        lemma_half_even_at_least(e * unit, p, k);
    }
}

/// A whole number of nanoseconds that is not in the middle between two numbers of
/// units is off it by one at least.
proof fn lemma_off_the_middle(n: nat, unit: nat, k: nat)
    requires
        unit == 10 || unit == 100 || unit == 1000,
        2 * (n * unit) < 2 * (k * 1_000_000_000) + 1_000_000_000,
        2 * (n * unit) > 2 * (k * 1_000_000_000) - 1_000_000_000,
    ensures
        2 * (n * unit) + unit <= 2 * (k * 1_000_000_000) + 1_000_000_000,
        2 * (n * unit) - unit >= 2 * (k * 1_000_000_000) - 1_000_000_000,
{
    if unit == 10 {
        assert(n * unit == 10 * n);
    } else if unit == 100 {
        assert(n * unit == 100 * n);
    } else {
        assert(n * unit == 1000 * n);
    }
}

#[verifier::spinoff_prover]
proof fn lemma_rounds_down(e: nat, n: nat, p: nat, unit: nat, k: nat)
    requires
        2 * (e * 1_000_000_000) < 2 * (n * p) + p,
        2 * (n * unit) + unit <= 2 * (k * 1_000_000_000) + 1_000_000_000,
        unit >= 1,
    ensures
        2 * (e * unit) < (2 * k + 1) * p,
{
    let a = 2 * (e * 1_000_000_000);
    let b = 2 * (n * p) + p;
    let c = 2 * (n * unit) + unit;
    let d = 2 * (k * 1_000_000_000) + 1_000_000_000;
    assert(a * unit < b * unit) by (nonlinear_arith)
        requires
            a < b,
            unit >= 1,
    ;
    assert(b * unit == c * p) by (nonlinear_arith)
        requires
            b == 2 * (n * p) + p,
            c == 2 * (n * unit) + unit,
    ;
    assert(c * p <= d * p) by (nonlinear_arith)
        requires
            c <= d,
            p >= 0,
    ;
    assert(a * unit == 1_000_000_000 * (2 * (e * unit))) by (nonlinear_arith)
        requires
            a == 2 * (e * 1_000_000_000),
    ;
    assert(d * p == 1_000_000_000 * ((2 * k + 1) * p)) by (nonlinear_arith)
        requires
            d == 2 * (k * 1_000_000_000) + 1_000_000_000,
    ;
}

#[verifier::spinoff_prover]
proof fn lemma_rounds_up(e: nat, n: nat, p: nat, unit: nat, k: nat)
    requires
        2 * (e * 1_000_000_000) > 2 * (n * p) - p,
        2 * (n * unit) - unit >= 2 * (k * 1_000_000_000) - 1_000_000_000,
        unit >= 1,
    ensures
        2 * (e * unit) > (2 * k - 1) * p,
{
    let a: int = 2 * (e * 1_000_000_000) as int;
    let b: int = 2 * (n * p) - p;
    let c: int = 2 * (n * unit) - unit;
    let d: int = 2 * (k * 1_000_000_000) - 1_000_000_000;
    assert(a * unit > b * unit) by (nonlinear_arith)
        requires
            a > b,
            unit >= 1,
    ;
    assert(b * unit == c * p) by (nonlinear_arith)
        requires
            b == 2 * (n * p) - p,
            c == 2 * (n * unit) - unit,
    ;
    assert(c * p >= d * p) by (nonlinear_arith)
        requires
            c >= d,
            p >= 0,
    ;
    assert(a * unit == 1_000_000_000 * (2 * (e * unit))) by (nonlinear_arith)
        requires
            a == 2 * (e * 1_000_000_000),
    ;
    assert(d * p == 1_000_000_000 * ((2 * k - 1) * p)) by (nonlinear_arith)
        requires
            d == 2 * (k * 1_000_000_000) - 1_000_000_000,
    ;
}

/// Printed with three decimals, a span of at least `k` milliseconds shows at
/// least `k`, and one of exactly `k` shows `k`.
pub proof fn milliseconds_are_printed_faithfully(secs: nat, nanos: nat, k: nat)
    requires
        secs < 0x800_0000_0000,
        nanos < 1_000_000_000,
    ensures
        secs * 1_000_000_000 + nanos >= k * 1_000_000 ==> rounded_seconds(secs, nanos, 1000) >= k,
        secs * 1_000_000_000 + nanos == k * 1_000_000 ==> rounded_seconds(secs, nanos, 1000) == k,
{
    let p = scale(nanos, 1_000_000_000);
    let e = seconds_as_double(secs, nanos);
    let n = secs * 1_000_000_000 + nanos;
    let exact = n * p;
    lemma_double_error(secs, nanos);
    if n >= k * 1_000_000 {
        assert(exact >= k * 1_000_000 * p) by (nonlinear_arith)
            requires
                exact == n * p,
                n >= k * 1_000_000,
        ;
        assert(2 * (e * 1000) > (2 * k - 1) * p) by (nonlinear_arith)
            requires
                2 * (e * 1_000_000_000) > 2 * exact - 1_000_000 * p,
                exact >= k * 1_000_000 * p,
        ;
        lemma_half_even_at_least(e * 1000, p, k);
    }
    if n == k * 1_000_000 {
        assert(exact == k * 1_000_000 * p) by (nonlinear_arith)
            requires
                exact == n * p,
                n == k * 1_000_000,
        ;
        assert(2 * (e * 1000) < (2 * k + 1) * p) by (nonlinear_arith)
            requires
                2 * (e * 1_000_000_000) < 2 * exact + 1_000_000 * p,
                exact == k * 1_000_000 * p,
        ;
        lemma_half_even_at_most(e * 1000, p, k);
    }
}


/// A span of 2 to the 43rd seconds or more shows at least so many.
pub proof fn long_spans_are_printed_long(secs: nat, nanos: nat)
    requires
        0x800_0000_0000 <= secs <= u64::MAX,
        nanos < 1_000_000_000,
    ensures
        rounded_seconds(secs, nanos, 1000) >= 0x800_0000_0000 * 1000,
{
    let den: nat = 1_000_000_000;
    let p = scale(nanos, den);
    let m = fraction(nanos);
    let s = nearest_double(secs);
    let x = s * p + m;
    let e = nearest_double(x);
    let floor: nat = 0x800_0000_0000 * p;
    lemma_double_is_multiple(secs);
    lemma2_to64();
    lemma2_to64_rest();
    if nanos == 0 {
        assert(p == pow2(0));
    } else {
        lemma_scale(nanos, den);
    }
    lemma_ulp_pow2(secs);
    lemma_half_even_bounds(secs, ulp(secs));
    lemma_fundamental_div_mod(secs as int, ulp(secs) as int);
    assert(ulp(secs) <= secs) by {
        if secs >= TWO_53 {
            assert(ulp(secs) <= ulp(secs) * (secs as int / ulp(secs) as int)) by (nonlinear_arith)
                requires
                    secs as int / ulp(secs) as int >= 1,
                    ulp(secs) >= 1,
            ;
        }
    }
    assert(s <= 2 * secs) by (nonlinear_arith)
        requires
            s == half_even(secs, ulp(secs)) * ulp(secs),
            2 * half_even(secs, ulp(secs)) * ulp(secs) <= 2 * secs + ulp(secs),
            ulp(secs) <= secs,
    ;
    assert(x >= floor) by (nonlinear_arith)
        requires
            x == s * p + m,
            s >= 0x800_0000_0000,
            floor == 0x800_0000_0000 * p,
    ;
    let u = ulp(x);
    lemma_ulp_pow2(x);
    lemma_half_even_bounds(x, u);
    lemma_fundamental_div_mod(x as int, u as int);
    assert(m <= p) by {
        if nanos > 0 {
            let top = nanos * p;
            lemma_half_even_bounds(top, den);
            assert(p > 0x10_0000_0000_0000) by (nonlinear_arith)
                requires
                    top == nanos * p,
                    nanos < 1_000_000_000,
                    top >= 1_000_000_000 * 0x10_0000_0000_0000,
            ;
            assert(m <= p) by (nonlinear_arith)
                requires
                    2 * m * den <= 2 * top + den,
                    top == nanos * p,
                    nanos <= den - 1,
                    den == 1_000_000_000,
                    p >= 0x10_0000_0000_0000,
            ;
        }
    }
    assert(u < floor) by {
        if x >= TWO_53 {
            assert(u * 0x10_0000_0000_0000 <= x) by (nonlinear_arith)
                requires
                    x == u * (x as int / u as int) + x as int % u as int,
                    x as int % u as int >= 0,
                    x as int / u as int >= 0x10_0000_0000_0000,
                    u >= 1,
            ;
            assert(x <= 0x4_0000_0000_0000_0000 * p) by (nonlinear_arith)
                requires
                    x == s * p + m,
                    m <= p,
                    s + 1 <= 0x4_0000_0000_0000_0000,
            ;
        }
    }
    assert(is_pow2(floor)) by {
        assert(0x800_0000_0000 == pow2(43));
        lemma_pow2_product(0x800_0000_0000, p);
    }
    lemma_pow2_gap(u, floor);
    lemma_fundamental_div_mod(floor as int, u as int);
    let c = floor / u;
    lemma_div_is_ordered(floor as int, x as int, u as int);
    assert(e >= floor) by (nonlinear_arith)
        requires
            floor == u * c,
            half_even(x, u) >= c,
            e == half_even(x, u) * u,
    ;
    assert(2 * (e * 1000) > (2 * (0x800_0000_0000 * 1000) - 1) * p) by (nonlinear_arith)
        requires
            e >= floor,
            floor == 0x800_0000_0000 * p,
            p >= 1,
    ;
    lemma_half_even_at_least(e * 1000, p, 0x800_0000_0000 * 1000);
}

} // verus!
