//! Ratios of large figures, without going beyond the machine's integers on the
//! way.

use vstd::prelude::*;

verus! {

/// `x`, or the most that a `u64` holds.
pub open spec fn at_most_u64(x: int) -> int {
    if x > u64::MAX {
        u64::MAX as int
    } else {
        x
    }
}

/// What a division comes to, by its two parts.
proof fn parts_of(num: int, den: int, q: int, r: int)
    requires
        num == q * den + r,
        0 <= r < den,
    ensures
        num / den == q,
        num % den == r,
{
    assert(num / den == q && num % den == r) by (nonlinear_arith)
        requires
            num == q * den + r,
            0 <= r < den,
    ;
}

/// Twice the product so far, and once more `whole` if `times` is odd: the parts
/// of a division follow.
proof fn doubling(w: int, d: int, half: int, q: int, r: int, odd: int, carry: int, again: int)
    requires
        w >= 0,
        d > 0,
        odd == 0 || odd == 1,
        w * half == q * d + r,
    ensures
        w * (2 * half + odd) == (2 * q + carry + again + odd * (w / d)) * d + (2 * r + odd * (w % d)
            - carry * d - again * d),
{
    let own = w / d;
    let over = w % d;
    assert(w == own * d + over) by (nonlinear_arith)
        requires
            own == w / d,
            over == w % d,
            d > 0,
    ;
    assert(w * (2 * half + odd) == 2 * (w * half) + odd * w) by (nonlinear_arith);
    assert(odd * w == (odd * own) * d + odd * over) by (nonlinear_arith)
        requires
            w == own * d + over,
    ;
    assert((2 * q + carry + again + odd * own) * d == 2 * (q * d) + carry * d + again * d + (odd
        * own) * d) by (nonlinear_arith);
}

/// The quotient of `whole * times` by `den`, up to one above what a `u64`
/// holds, and the remainder. Doubles and adds, a bit of `times` at a time.
fn divided(whole: u128, times: u128, den: u128) -> (out: (u128, u128))
    requires
        0 < den <= 0x7fff_ffff_ffff_ffff_ffff_ffff_ffff_ffff,
    ensures
        out.0 == if whole * times / (den as int) > 0x1_0000_0000_0000_0000 {
            0x1_0000_0000_0000_0000
        } else {
            whole * times / (den as int)
        },
        out.1 == whole * times % (den as int),
    decreases times,
{
    let ghost w = whole as int;
    let ghost d = den as int;
    if times == 0 {
        proof {
            assert(w * 0 == 0) by (nonlinear_arith);
            assert(0 * d == 0) by (nonlinear_arith);
            parts_of(w * times, d, 0, 0);
        }
        return (0, 0);
    }
    let (quotient, remainder) = divided(whole, times / 2, den);
    let odd: u128 = times % 2;
    let ghost half = (times / 2) as int;
    let ghost exact = w * half / d;
    proof {
        assert(w * half >= 0) by (nonlinear_arith)
            requires
                w >= 0,
                half >= 0,
        ;
        assert(w * half == exact * d + remainder && 0 <= remainder < d && exact >= 0)
            by (nonlinear_arith)
            requires
                exact == w * half / d,
                remainder == w * half % d,
                w * half >= 0,
                d > 0,
        ;
    }
    let own: u128 = if odd == 1 {
        whole / den
    } else {
        0
    };
    let over: u128 = if odd == 1 {
        whole % den
    } else {
        0
    };
    let doubled: u128 = 2 * remainder;
    let carry: u128 = if doubled >= den {
        1
    } else {
        0
    };
    let reduced: u128 = if doubled >= den {
        doubled - den
    } else {
        doubled
    };
    let sum: u128 = reduced + over;
    let again: u128 = if sum >= den {
        1
    } else {
        0
    };
    let left: u128 = if sum >= den {
        sum - den
    } else {
        sum
    };
    proof {
        doubling(w, d, half, exact, remainder as int, odd as int, carry as int, again as int);
        assert(odd * (w / d) == own && odd * (w % d) == over) by (nonlinear_arith)
            requires
                odd == 0 || odd == 1,
                odd == 1 ==> own == w / d && over == w % d,
                odd == 0 ==> own == 0 && over == 0,
        ;
        assert(carry * d == if carry == 1 {
            d
        } else {
            0
        }) by (nonlinear_arith)
            requires
                carry == 0 || carry == 1,
        ;
        assert(again * d == if again == 1 {
            d
        } else {
            0
        }) by (nonlinear_arith)
            requires
                again == 0 || again == 1,
        ;
        parts_of(w * times, d, 2 * exact + carry + again + own, left as int);
    }
    let most: u128 = 0x1_0000_0000_0000_0000;
    if own > most {
        return (most, left);
    }
    let next: u128 = 2 * quotient + carry + again + own;
    if next > most {
        (most, left)
    } else {
        (next, left)
    }
}

/// `whole * times / den`, in whole numbers.
pub fn scaled(whole: u128, times: u128, den: u128) -> (out: u64)
    requires
        0 < den <= 0x7fff_ffff_ffff_ffff_ffff_ffff_ffff_ffff,
    ensures
        out == at_most_u64(whole * times / (den as int)),
{
    let (quotient, _) = divided(whole, times, den);
    if quotient > 0xffff_ffff_ffff_ffff {
        0xffff_ffff_ffff_ffff
    } else {
        quotient as u64
    }
}

/// The largest whole number whose square is not above `n`.
pub open spec fn is_root(r: int, n: int) -> bool {
    r >= 0 && r * r <= n < (r + 1) * (r + 1)
}

/// The square root, in whole numbers.
pub open spec fn root_of(n: int) -> int {
    choose|r: int| is_root(r, n)
}

/// The square root, in whole numbers.
pub fn root(n: u64) -> (out: u64)
    ensures
        is_root(out as int, n as int),
        out == root_of(n as int),
{
    let mut low: u128 = 0;
    let mut high: u128 = 0x1_0000_0000;
    assert(low * low <= n < high * high) by (nonlinear_arith)
        requires
            low == 0,
            high == 0x1_0000_0000,
            n <= u64::MAX,
    ;
    while low + 1 < high
        invariant
            low < high <= 0x1_0000_0000,
            low * low <= n < high * high,
        decreases high - low,
    {
        let middle: u128 = (low + high) / 2;
        assert(middle * middle <= 0x1_0000_0000 * 0x1_0000_0000) by (nonlinear_arith)
            requires
                0 <= middle <= 0x1_0000_0000,
        ;
        if middle * middle <= n as u128 {
            low = middle;
        } else {
            high = middle;
        }
    }
    proof {
        a_root_is_unique(low as int, root_of(n as int), n as int);
    }
    low as u64
}

/// There is only one such number.
pub proof fn a_root_is_unique(a: int, b: int, n: int)
    requires
        is_root(a, n),
        is_root(b, n),
    ensures
        a == b,
{
    if a < b {
        assert((a + 1) * (a + 1) <= b * b) by (nonlinear_arith)
            requires
                0 <= a,
                a + 1 <= b,
        ;
    } else if b < a {
        assert((b + 1) * (b + 1) <= a * a) by (nonlinear_arith)
            requires
                0 <= b,
                b + 1 <= a,
        ;
    }
}

/// Every number has such a root.
pub proof fn a_root_exists(n: int)
    requires
        n >= 0,
    ensures
        is_root(root_of(n), n),
    decreases n,
{
    if n == 0 {
        assert(is_root(0, 0));
    } else {
        a_root_exists(n - 1);
        let r = root_of(n - 1);
        if (r + 1) * (r + 1) == n {
            assert((r + 1) * (r + 1) < (r + 2) * (r + 2)) by (nonlinear_arith)
                requires
                    r >= 0,
            ;
            assert(is_root(r + 1, n));
        } else {
            assert(is_root(r, n));
        }
    }
}

} // verus!
