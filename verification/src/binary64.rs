//! Numbers as a machine holds them in binary, with 53 significant digits.
//!
//! A figure that is published goes through such a number, and a decimal that
//! lies half way between two others then lies a little above or below.

use vstd::arithmetic::power2::{
    lemma2_to64, lemma_pow2_adds, lemma_pow2_pos, lemma_pow2_strictly_increases, lemma_pow2_unfold,
    pow2,
};
use vstd::prelude::*;

use crate::text;
use crate::text::half_even;

verus! {

/// The binary number nearest to `n / d`, as a fraction: a whole number of 53
/// digits, over or times a power of two.
pub open spec fn nearest(n: nat, d: nat) -> (nat, nat)
    decreases
            if n < d * 0x10_0000_0000_0000 {
                d * 0x10_0000_0000_0000 - n
            } else if n < d * 0x20_0000_0000_0000 {
                0
            } else {
                n - d * 0x20_0000_0000_0000 + 1
            },
{
    if n == 0 || d == 0 {
        (0, 1)
    } else if n < d * 0x10_0000_0000_0000 {
        let (p, q) = nearest(2 * n, d);
        (p, 2 * q)
    } else if n < d * 0x20_0000_0000_0000 {
        (half_even(n, d), 1)
    } else {
        let (p, q) = nearest(n, 2 * d);
        (2 * p, q)
    }
}

/// What is left of one binary number once another is taken from it, over the
/// larger of their powers of two.
pub open spec fn difference(a: (nat, nat), b: (nat, nat)) -> (int, nat) {
    if a.1 >= b.1 {
        (a.0 - b.0 * (a.1 / b.1), a.1)
    } else {
        (a.0 * (b.1 / a.1) - b.0, b.1)
    }
}

/// The binary number nearest to `n / d`, in `parts`ths, rounded to the nearest.
pub open spec fn shown(n: nat, d: nat, parts: nat) -> nat {
    let (p, q) = nearest(n, d);
    half_even(p * parts, q)
}

/// `n / d` in whole percent: the binary number nearest to it, a hundred times
/// that, and the whole number nearest to the outcome.
pub open spec fn percent_of(n: nat, d: nat) -> nat {
    let (p, q) = nearest(n, d);
    shown(100 * p, q, 1)
}

/// The nearest binary number is no more than twice as large.
proof fn not_twice_as_large(n: nat, d: nat)
    requires
        d > 0,
    ensures
        nearest(n, d).0 * d <= 2 * n * nearest(n, d).1,
        nearest(n, d).1 >= 1,
    decreases
            if n < d * 0x10_0000_0000_0000 {
                d * 0x10_0000_0000_0000 - n
            } else if n < d * 0x20_0000_0000_0000 {
                0
            } else {
                n - d * 0x20_0000_0000_0000 + 1
            },
{
    if n == 0 {
        assert(0 * d == 0) by (nonlinear_arith);
    } else if n < d * 0x10_0000_0000_0000 {
        not_twice_as_large(2 * n, d);
        let q = nearest(2 * n, d).1;
        assert(2 * (2 * n) * q == 2 * n * (2 * q)) by (nonlinear_arith);
        assert(nearest(n, d) == (nearest(2 * n, d).0, 2 * q));
    } else if n < d * 0x20_0000_0000_0000 {
        let p = half_even(n, d);
        assert(nearest(n, d) == (p, 1nat));
        assert(p * d <= 2 * n) by (nonlinear_arith)
            requires
                p <= n / d + 1,
                n >= d,
                d > 0,
        ;
    } else {
        not_twice_as_large(n, 2 * d);
        let p = nearest(n, 2 * d).0;
        assert(p * (2 * d) == (2 * p) * d) by (nonlinear_arith);
        assert(nearest(n, d) == (2 * p, nearest(n, 2 * d).1));
    }
}

/// What is far below half a percent is none.
proof fn a_small_share_is_none(n: nat, d: nat)
    requires
        d >= 800 * n,
        d > 0,
    ensures
        percent_of(n, d) == 0,
{
    let (p, q) = nearest(n, d);
    not_twice_as_large(n, d);
    assert(400 * p <= q) by (nonlinear_arith)
        requires
            p * d <= 2 * n * q,
            d >= 800 * n,
            d > 0,
    ;
    let (r, t) = nearest(100 * p, q);
    not_twice_as_large(100 * p, q);
    assert(2 * r <= t) by (nonlinear_arith)
        requires
            r * q <= 2 * (100 * p) * t,
            400 * p <= q,
            q >= 1,
    ;
    assert(r / t == 0 && r % t == r) by (nonlinear_arith)
        requires
            2 * r <= t,
            t >= 1,
    ;
}

/// `n / d` in whole percent.
pub fn percent(n: u128, d: u128) -> (out: u128)
    requires
        n <= d,
        2 <= d <= 0x1_0000_0000,
    ensures
        out == percent_of(n as nat, d as nat),
{
    if d >= 800 * n {
        proof {
            a_small_share_is_none(n as nat, d as nat);
        }
        return 0;
    }
    let (p, q) = find_nearest(n, d);
    assert(q <= 800 * 0x20_0000_0000_0000) by (nonlinear_arith)
        requires
            q == 1 || q * n <= d * 0x20_0000_0000_0000,
            d < 800 * n,
    ;
    show(100 * p, q, 1)
}

/// The binary number nearest to `n / d`.
pub fn find_nearest(n: u128, d: u128) -> (out: (u128, u128))
    requires
        n <= 0x8000_0000_0000_0000_0000_0000_0000_0000,
        2 <= d,
        d <= 0x200_0000_0000_0000_0000 || d * 0x10_0000_0000_0000 <= n,
    ensures
        (out.0 as nat, out.1 as nat) == nearest(n as nat, d as nat),
        n < d * 0x20_0000_0000_0000 ==> out.0 <= 0x20_0000_0000_0000,
        n >= d * 0x20_0000_0000_0000 ==> out.0 * d <= 2 * n,
        out.1 >= 1,
        0 < n < d * 0x10_0000_0000_0000 ==> out.1 >= 2,
        n == 0 || n >= d * 0x10_0000_0000_0000 ==> out.1 == 1,
        out.1 == 1 || out.1 * n <= d * 0x20_0000_0000_0000,
    decreases
            if n < d * 0x10_0000_0000_0000 {
                d * 0x10_0000_0000_0000 - n
            } else if n < d * 0x20_0000_0000_0000 {
                0
            } else {
                n - d * 0x20_0000_0000_0000 + 1
            },
{
    if n == 0 {
        return (0, 1);
    }
    if n < d * 0x10_0000_0000_0000 {
        let (p, q) = find_nearest(2 * n, d);
        assert(q <= d * 0x20_0000_0000_0000 / 2 && (2 * q) * n <= d * 0x20_0000_0000_0000)
            by (nonlinear_arith)
            requires
                1 <= n < d * 0x10_0000_0000_0000,
                q == 1 || q * (2 * n) <= d * 0x20_0000_0000_0000,
        ;
        (p, 2 * q)
    } else if n / 0x20_0000_0000_0000 < d {
        let p = text::round_half_even(n, d);
        assert(p <= 0x20_0000_0000_0000) by (nonlinear_arith)
            requires
                n < d * 0x20_0000_0000_0000,
                d >= 2,
                p <= n / d + 1,
        ;
        (p, 1)
    } else {
        let (p, q) = find_nearest(n, 2 * d);
        assert((2 * p) * d <= 2 * n && 2 * p <= n) by (nonlinear_arith)
            requires
                n >= d * 0x20_0000_0000_0000,
                d >= 2,
                p <= 0x20_0000_0000_0000 || p * (2 * d) <= 2 * n,
        ;
        (2 * p, q)
    }
}

/// The binary number nearest to `n / d`, in `parts`ths.
pub fn show(n: u128, d: u128, parts: u128) -> (out: u128)
    requires
        n <= 0x8000_0000_0000_0000_0000_0000_0000_0000,
        2 <= d <= 0x200_0000_0000_0000_0000,
        d >= 1000 || n <= 0x1_0000_0000_0000_0000_0000_0000_0000,
        1 <= parts <= 100,
    ensures
        out == shown(n as nat, d as nat, parts as nat),
{
    let (p, q) = find_nearest(n, d);
    assert(p * parts <= 0x4000_0000_0000_0000_0000_0000_0000_0000) by (nonlinear_arith)
        requires
            p <= 0x20_0000_0000_0000 || p * d <= 2 * n,
            n <= 0x8000_0000_0000_0000_0000_0000_0000_0000,
            d >= 2,
            d >= 1000 || n <= 0x1_0000_0000_0000_0000_0000_0000_0000,
            1 <= parts <= 100,
    ;
    assert(q <= d * 0x20_0000_0000_0000) by (nonlinear_arith)
        requires
            q == 1 || (n >= 1 && q * n <= d * 0x20_0000_0000_0000),
            d >= 2,
    ;
    text::round_half_even(p * parts, q)
}

/// The nearest binary number is within one part in twice as many as it has digits for.
pub proof fn the_nearest_is_near(n: nat, d: nat)
    requires
        d > 0,
    ensures
        nearest(n, d).1 >= 1,
        (nearest(n, d).0 * d - n * nearest(n, d).1) * 0x20_0000_0000_0000 <= n * nearest(n, d).1,
        (n * nearest(n, d).1 - nearest(n, d).0 * d) * 0x20_0000_0000_0000 <= n * nearest(n, d).1,
    decreases
            if n < d * 0x10_0000_0000_0000 {
                d * 0x10_0000_0000_0000 - n
            } else if n < d * 0x20_0000_0000_0000 {
                0
            } else {
                n - d * 0x20_0000_0000_0000 + 1
            },
{
    if n == 0 {
        assert(0 * d == 0) by (nonlinear_arith);
    } else if n < d * 0x10_0000_0000_0000 {
        the_nearest_is_near(2 * n, d);
        let q = nearest(2 * n, d).1;
        assert((2 * n) * q == n * (2 * q)) by (nonlinear_arith);
        assert(nearest(n, d) == (nearest(2 * n, d).0, 2 * q));
    } else if n < d * 0x20_0000_0000_0000 {
        let p = half_even(n, d);
        assert(nearest(n, d) == (p, 1nat));
        text::rounding_goes_to_the_nearest(n, d);
        assert(-(d as int) <= 2 * (p * d - n) <= d);
        assert((p * d - n) * 0x20_0000_0000_0000 <= n);
        assert(n * nearest(n, d).1 == n);
    } else {
        the_nearest_is_near(n, 2 * d);
        let p = nearest(n, 2 * d).0;
        assert(p * (2 * d) == (2 * p) * d) by (nonlinear_arith);
        assert(nearest(n, d) == (2 * p, nearest(n, 2 * d).1));
    }
}

/// What is shown is no more than half a part from the fraction itself, but for what the
/// nearest binary number is away from it.
pub proof fn what_is_shown_is_near(n: nat, d: nat, parts: nat)
    requires
        d > 0,
    ensures
        (2 * (shown(n, d, parts) * d) - 2 * (n * parts)) * 0x20_0000_0000_0000 <= d
            * 0x20_0000_0000_0000 + 2 * (n * parts),
        (2 * (n * parts) - 2 * (shown(n, d, parts) * d)) * 0x20_0000_0000_0000 <= d
            * 0x20_0000_0000_0000 + 2 * (n * parts),
{
    let (p, q) = nearest(n, d);
    let s = shown(n, d, parts);
    the_nearest_is_near(n, d);
    text::rounding_goes_to_the_nearest(p * parts, q);
    let away = p * d - n * q;
    let rest = s * q - p * parts;
    assert(q * (s * d - n * parts) == d * rest + parts * away) by (nonlinear_arith)
        requires
            away == p * d - n * q,
            rest == s * q - p * parts,
    ;
    assert(-(d * q) <= 2 * (d * rest) <= d * q) by (nonlinear_arith)
        requires
            -(q as int) <= 2 * rest <= q,
    ;
    assert(-(parts * (n * q)) <= (parts * away) * 0x20_0000_0000_0000 <= parts * (n * q))
        by (nonlinear_arith)
        requires
            -(n * q) <= away * 0x20_0000_0000_0000 <= n * q,
            parts >= 0,
    ;
    let off = s * d - n * parts;
    assert(parts * (n * q) == q * (n * parts)) by (nonlinear_arith);
    let most = d * 0x20_0000_0000_0000 + 2 * (n * parts);
    assert(q * most == (d * q) * 0x20_0000_0000_0000 + 2 * (q * (n * parts))) by (nonlinear_arith)
        requires
            most == d * 0x20_0000_0000_0000 + 2 * (n * parts),
    ;
    assert(-(q * most) <= 2 * (q * off) * 0x20_0000_0000_0000 <= q * most);
    assert(-most <= 2 * off * 0x20_0000_0000_0000 <= most) by (nonlinear_arith)
        requires
            -(q * most) <= 2 * (q * off) * 0x20_0000_0000_0000 <= q * most,
            q >= 1,
    ;
}

/// What is shown of a fraction that is not too fine is the nearest part to it, or one of
/// the two nearest.
pub proof fn what_is_shown_is_the_nearest(n: nat, d: nat, parts: nat)
    requires
        d > 0,
        n * parts < 0x10_0000_0000_0000,
    ensures
        -(d as int) <= 2 * (shown(n, d, parts) * d - n * parts) <= d,
{
    what_is_shown_is_near(n, d, parts);
}

/// A share in percent is the whole number nearest to it, or one of the two nearest.
pub proof fn a_percentage_is_the_nearest(n: nat, d: nat)
    requires
        d > 0,
        n <= 0x1_0000_0000,
    ensures
        -(d as int) <= 2 * (percent_of(n, d) * d - 100 * n) <= d,
{
    let (p, q) = nearest(n, d);
    let out = percent_of(n, d);
    the_nearest_is_near(n, d);
    not_twice_as_large(n, d);
    what_is_shown_is_near(100 * p, q, 1);
    assert(100 * p * 1 == 100 * p);
    let away = p * d - n * q;
    let rest = out * q - 100 * p;
    let off = out * d - 100 * n;
    assert(q * off == d * rest + 100 * away) by (nonlinear_arith)
        requires
            away == p * d - n * q,
            rest == out * q - 100 * p,
            off == out * d - 100 * n,
    ;
    assert(-(d * q * 0x20_0000_0000_0000 + 200 * (p * d)) <= 2 * (d * rest)
        * 0x20_0000_0000_0000 <= d * q * 0x20_0000_0000_0000 + 200 * (p * d)) by (nonlinear_arith)
        requires
            -(q * 0x20_0000_0000_0000 + 200 * p) <= 2 * rest * 0x20_0000_0000_0000 <= q
                * 0x20_0000_0000_0000 + 200 * p,
            d > 0,
    ;
    let most = d * 0x20_0000_0000_0000 + 600 * n;
    assert(2 * n * q == 2 * (n * q)) by (nonlinear_arith);
    assert(q * most == d * q * 0x20_0000_0000_0000 + 600 * (n * q)) by (nonlinear_arith)
        requires
            most == d * 0x20_0000_0000_0000 + 600 * n,
    ;
    assert(-(q * most) <= 2 * (q * off) * 0x20_0000_0000_0000 <= q * most);
    assert(-most <= 2 * off * 0x20_0000_0000_0000 <= most) by (nonlinear_arith)
        requires
            -(q * most) <= 2 * (q * off) * 0x20_0000_0000_0000 <= q * most,
            q >= 1,
    ;
}

/// The lower part of a nearest binary number is a power of two.
proof fn over_a_power_of_two(n: nat, d: nat) -> (k: nat)
    requires
        d > 0,
    ensures
        nearest(n, d).1 == pow2(k),
    decreases
            if n < d * 0x10_0000_0000_0000 {
                d * 0x10_0000_0000_0000 - n
            } else if n < d * 0x20_0000_0000_0000 {
                0
            } else {
                n - d * 0x20_0000_0000_0000 + 1
            },
{
    if n == 0 {
        lemma2_to64();
        0
    } else if n < d * 0x10_0000_0000_0000 {
        let k = over_a_power_of_two(2 * n, d);
        lemma_pow2_unfold(k + 1);
        k + 1
    } else if n < d * 0x20_0000_0000_0000 {
        lemma2_to64();
        0
    } else {
        over_a_power_of_two(n, 2 * d)
    }
}

/// The larger of two powers of two holds the smaller a whole number of times.
proof fn powers_divide(a: nat, b: nat)
    requires
        pow2(a) >= pow2(b),
    ensures
        pow2(a) == pow2(b) * (pow2(a) / pow2(b)),
        pow2(b) > 0,
{
    lemma_pow2_pos(b);
    if a < b {
        lemma_pow2_strictly_increases(a, b);
    }
    lemma_pow2_adds(b, (a - b) as nat);
    let f = pow2((a - b) as nat);
    assert(pow2(a) / pow2(b) == f) by (nonlinear_arith)
        requires
            pow2(a) == pow2(b) * f,
            pow2(b) > 0,
    ;
}

/// The difference of two binary numbers is exact.
pub proof fn a_difference_is_exact(n: nat, d: nat, m: nat, e: nat)
    requires
        d > 0,
        e > 0,
    ensures
        ({
            let a = nearest(n, d);
            let b = nearest(m, e);
            let (left, den) = difference(a, b);
            &&& den >= 1
            &&& left * (a.1 * b.1) == (a.0 * b.1 - b.0 * a.1) * den
        }),
{
    let a = nearest(n, d);
    let b = nearest(m, e);
    let i = over_a_power_of_two(n, d);
    let k = over_a_power_of_two(m, e);
    lemma_pow2_pos(i);
    lemma_pow2_pos(k);
    let (left, den) = difference(a, b);
    if a.1 >= b.1 {
        powers_divide(i, k);
        let f = a.1 / b.1;
        assert(left * (a.1 * b.1) == (a.0 * b.1 - b.0 * a.1) * den) by (nonlinear_arith)
            requires
                left == a.0 - b.0 * f,
                den == a.1,
                a.1 == b.1 * f,
        ;
    } else {
        powers_divide(k, i);
        let f = b.1 / a.1;
        assert(left * (a.1 * b.1) == (a.0 * b.1 - b.0 * a.1) * den) by (nonlinear_arith)
            requires
                left == a.0 * f - b.0,
                den == b.1,
                b.1 == a.1 * f,
        ;
    }
}

} // verus!
