//! Counting what had to be thrown away, without becoming the flood.

use vstd::arithmetic::power2::{lemma_pow2_pos, lemma_pow2_unfold, pow2};
use vstd::prelude::*;

verus! {

/// Totals that are worth a line in the log.
pub open spec fn is_power_of_two(n: int) -> bool {
    exists|e: nat| n == #[trigger] pow2(e)
}

proof fn halves(n: int)
    requires
        n > 0,
    ensures
        is_power_of_two(2 * n) <==> is_power_of_two(n),
{
    if is_power_of_two(n) {
        let e = choose|e: nat| n == #[trigger] pow2(e);
        lemma_pow2_unfold((e + 1) as nat);
        assert(2 * n == pow2((e + 1) as nat));
    }
    if is_power_of_two(2 * n) {
        let e = choose|e: nat| 2 * n == #[trigger] pow2(e);
        if e == 0 {
            vstd::arithmetic::power2::lemma2_to64();
        } else {
            lemma_pow2_unfold(e);
            assert(n == pow2((e - 1) as nat));
        }
    }
}

proof fn odd_ones(n: int)
    requires
        n > 0,
        n % 2 == 1,
    ensures
        is_power_of_two(n) <==> n == 1,
{
    vstd::arithmetic::power2::lemma2_to64();
    assert(1 == pow2(0));
    if is_power_of_two(n) {
        let e = choose|e: nat| n == #[trigger] pow2(e);
        if e > 0 {
            lemma_pow2_unfold(e);
        }
    }
}

fn power_of_two(n: u64) -> (out: bool)
    requires
        n > 0,
    ensures
        out == is_power_of_two(n as int),
{
    let mut m: u64 = n;
    while m % 2 == 0
        invariant
            0 < m <= n,
            is_power_of_two(m as int) <==> is_power_of_two(n as int),
        decreases m,
    {
        proof {
            halves((m / 2) as int);
        }
        m = m / 2;
    }
    proof {
        odd_ones(m as int);
    }
    m == 1
}

/// Records one more casualty, reporting the running total on powers of two.
///
/// A persistent stall has to be loud, but the thing that stalls is usually the
/// thing that would flood. Powers of two are silent enough to live with and
/// dense enough at the start to notice.
pub fn tally(counter: &mut u64) -> (report: Option<u64>)
    requires
        *old(counter) < u64::MAX,
    ensures
        *final(counter) == *old(counter) + 1,
        report == if is_power_of_two(*old(counter) + 1) {
            Some((*old(counter) + 1) as u64)
        } else {
            None
        },
{
    *counter = *counter + 1;
    if power_of_two(*counter) {
        Some(*counter)
    } else {
        None
    }
}

/// The first casualty is always reported.
pub proof fn the_first_is_reported()
    ensures
        is_power_of_two(1),
{
    vstd::arithmetic::power2::lemma2_to64();
    assert(1 == pow2(0));
}

/// Between one report and the next, as many again go by in silence: after a
/// report of `n`, the next comes at `2 * n` and at nothing before it.
pub proof fn reports_grow_rarer(n: int, between: int)
    requires
        n > 0,
        is_power_of_two(n),
        n < between < 2 * n,
    ensures
        is_power_of_two(2 * n),
        !is_power_of_two(between),
{
    halves(n);
    let e = choose|e: nat| n == #[trigger] pow2(e);
    if is_power_of_two(between) {
        let f = choose|f: nat| between == #[trigger] pow2(f);
        lemma_pow2_unfold((e + 1) as nat);
        if f <= e {
            grows(f, e);
        } else {
            grows((e + 1) as nat, f);
        }
    }
}

proof fn grows(a: nat, b: nat)
    requires
        a <= b,
    ensures
        pow2(a) <= pow2(b),
    decreases b - a,
{
    if a < b {
        grows(a, (b - 1) as nat);
        lemma_pow2_unfold(b);
        lemma_pow2_pos((b - 1) as nat);
    }
}

} // verus!
