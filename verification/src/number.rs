//! Reading numbers out of text.

use vstd::prelude::*;

use crate::text::{chars_of, decimal, signed};
use crate::units::{saturate_i64, saturated_i64};

verus! {

pub open spec fn is_digit(c: char) -> bool {
    '0' <= c <= '9'
}

/// One or more decimal digits and nothing else.
pub open spec fn is_digits(s: Seq<char>) -> bool {
    s.len() > 0 && forall|i: int| 0 <= i < s.len() ==> is_digit(#[trigger] s[i])
}

/// What a run of digits is worth.
pub open spec fn digits_value(s: Seq<char>) -> nat
    decreases s.len(),
{
    if s.len() == 0 {
        0
    } else {
        10 * digits_value(s.drop_last()) + (s.last() as int - 48) as nat
    }
}

/// An integer: digits, with a sign in front or none.
pub open spec fn int_of(s: Seq<char>) -> Option<int> {
    if is_digits(s) {
        Some(digits_value(s) as int)
    } else if s.len() > 0 && s[0] == '+' && is_digits(s.skip(1)) {
        Some(digits_value(s.skip(1)) as int)
    } else if s.len() > 0 && s[0] == '-' && is_digits(s.skip(1)) {
        Some(-digits_value(s.skip(1)))
    } else {
        None
    }
}

/// The first three digits of a fraction, with zeros for those it lacks.
pub open spec fn thousandths(fraction: Seq<char>) -> nat {
    let at = |i: int| if i < fraction.len() { (fraction[i] as int - 48) as nat } else { 0 };
    100 * at(0) + 10 * at(1) + at(2)
}

/// Where the first `.` stands, or the end.
pub open spec fn point(s: Seq<char>, from: int) -> int
    decreases s.len() - from,
{
    if from >= s.len() || s[from] == '.' {
        from
    } else {
        point(s, from + 1)
    }
}

/// A decimal without a sign, in whole thousandths: digits, and a fraction of
/// which the first three digits count.
pub open spec fn milli_magnitude(s: Seq<char>) -> Option<nat> {
    let p = point(s, 0);
    if p >= s.len() {
        if is_digits(s) {
            Some(digits_value(s) * 1000)
        } else {
            None
        }
    } else if is_digits(s.take(p)) && is_digits(s.skip(p + 1)) {
        Some(digits_value(s.take(p)) * 1000 + thousandths(s.skip(p + 1)))
    } else {
        None
    }
}

/// A decimal in whole thousandths, with a minus sign in front or none.
pub open spec fn milli_of(s: Seq<char>) -> Option<int> {
    if s.len() > 0 && s[0] == '-' {
        match milli_magnitude(s.skip(1)) {
            Some(m) => Some(-m),
            None => None,
        }
    } else {
        match milli_magnitude(s) {
            Some(m) => Some(m as int),
            None => None,
        }
    }
}

/// Values above this are all alike: none fits a machine integer.
pub open spec fn ceiling() -> nat {
    1_000_000_000_000_000_000_000_000_000_000
}

pub open spec fn capped(n: nat) -> nat {
    if n > ceiling() {
        ceiling()
    } else {
        n
    }
}

/// The value of the digits in `chars[from..to]`, or nothing where they are no
/// digits.
fn read_digits(chars: &Vec<char>, from: usize, to: usize) -> (out: Option<u128>)
    requires
        from <= to <= chars.len(),
    ensures
        out is Some <==> is_digits(chars@.subrange(from as int, to as int)),
        out matches Some(v) ==> v == capped(
            digits_value(chars@.subrange(from as int, to as int)),
        ),
{
    if from == to {
        return None;
    }
    let ghost all = chars@.subrange(from as int, to as int);
    let mut value: u128 = 0;
    let mut i: usize = from;
    while i < to
        invariant
            from <= i <= to <= chars.len(),
            all == chars@.subrange(from as int, to as int),
            forall|k: int| 0 <= k < i - from ==> is_digit(#[trigger] all[k]),
            value == capped(digits_value(all.take(i - from))),
        decreases to - i,
    {
        let c = chars[i];
        if !('0' <= c && c <= '9') {
            assert(!is_digit(all[i - from]));
            return None;
        }
        let next: u128 = value * 10 + (c as u32 - 48) as u128;
        value = if next > 1_000_000_000_000_000_000_000_000_000_000 {
            1_000_000_000_000_000_000_000_000_000_000
        } else {
            next
        };
        proof {
            assert(all[i - from] == c);
            assert(all.take(i + 1 - from).drop_last() =~= all.take(i - from));
            assert(all.take(i + 1 - from).last() == c);
        }
        i += 1;
    }
    assert(all.take(to - from) =~= all);
    Some(value)
}

fn read_int(text: &str) -> (out: Option<i128>)
    ensures
        out is Some <==> int_of(text@) is Some,
        int_of(text@) matches Some(v) ==> out == Some(
            (if v > ceiling() {
                ceiling() as i128
            } else if v < -ceiling() {
                (-(ceiling() as int)) as i128
            } else {
                v as i128
            }),
        ),
{
    let chars = chars_of(text);
    let n = chars.len();
    assert(chars@.subrange(0, n as int) =~= text@);
    if n > 0 && (chars[0] == '+' || chars[0] == '-') {
        assert(!is_digit(text@[0]));
        assert(chars@.subrange(1, n as int) =~= text@.skip(1));
        match read_digits(&chars, 1, n) {
            Some(v) => {
                if chars[0] == '-' {
                    Some(-(v as i128))
                } else {
                    Some(v as i128)
                }
            },
            None => None,
        }
    } else {
        match read_digits(&chars, 0, n) {
            Some(v) => Some(v as i128),
            None => None,
        }
    }
}

/// Whether `text` writes an integer.
pub fn is_int(text: &str) -> (out: bool)
    ensures
        out == int_of(text@) is Some,
{
    read_int(text).is_some()
}

/// The integer that `text` writes, where it is one and fits.
pub fn parse_i64(text: &str) -> (out: Option<i64>)
    ensures
        out == match int_of(text@) {
            Some(v) if i64::MIN <= v <= i64::MAX => Some(v as i64),
            _ => None,
        },
{
    match read_int(text) {
        Some(v) => if -0x8000_0000_0000_0000 <= v && v <= 0x7fff_ffff_ffff_ffff {
            Some(v as i64)
        } else {
            None
        },
        None => None,
    }
}

/// The integer that `text` writes, where it is one, not negative, and fits.
pub fn parse_count(text: &str) -> (out: Option<u64>)
    ensures
        out == match int_of(text@) {
            Some(v) if 0 <= v <= u64::MAX => Some(v as u64),
            _ => None,
        },
{
    match read_int(text) {
        Some(v) => if 0 <= v && v <= 0xffff_ffff_ffff_ffff {
            Some(v as u64)
        } else {
            None
        },
        None => None,
    }
}

/// Writes a number that is not negative without a minus sign.
pub open spec fn unsigned_of(s: Seq<char>) -> Option<int> {
    if s.len() > 0 && s[0] == '-' {
        None
    } else {
        int_of(s)
    }
}

/// The number that `text` writes without a minus sign, where it is one and
/// fits.
pub fn parse_u64(text: &str) -> (out: Option<u64>)
    ensures
        out == match unsigned_of(text@) {
            Some(v) if v <= u64::MAX => Some(v as u64),
            _ => None,
        },
{
    let chars = chars_of(text);
    if chars.len() > 0 && chars[0] == '-' {
        return None;
    }
    match read_int(text) {
        Some(v) => if 0 <= v && v <= 0xffff_ffff_ffff_ffff {
            Some(v as u64)
        } else {
            None
        },
        None => None,
    }
}

/// As [`parse_u64`], for a smaller range.
pub fn parse_u32(text: &str) -> (out: Option<u32>)
    ensures
        out == match unsigned_of(text@) {
            Some(v) if v <= u32::MAX => Some(v as u32),
            _ => None,
        },
{
    match parse_u64(text) {
        Some(v) => if v <= 0xffff_ffff {
            Some(v as u32)
        } else {
            None
        },
        None => None,
    }
}

proof fn point_found(s: Seq<char>, from: int, p: int)
    requires
        0 <= from <= p <= s.len(),
        p < s.len() ==> s[p] == '.',
        forall|i: int| from <= i < p ==> s[i] != '.',
    ensures
        point(s, from) == p,
    decreases p - from,
{
    if from < p {
        point_found(s, from + 1, p);
    }
}

fn fraction_digit(chars: &Vec<char>, from: usize, at: usize) -> (out: u128)
    requires
        from <= chars.len(),
        at < chars.len() - from ==> is_digit(chars@[from + at]),
    ensures
        out == if at < chars.len() - from {
            (chars@[from + at] as int - 48) as nat
        } else {
            0
        },
        out <= 9,
{
    if at < chars.len() - from {
        (chars[from + at] as u32 - 48) as u128
    } else {
        0
    }
}

fn read_milli(chars: &Vec<char>, from: usize) -> (out: Option<u128>)
    requires
        from <= chars.len(),
    ensures
        out is Some <==> milli_magnitude(chars@.skip(from as int)) is Some,
        milli_magnitude(chars@.skip(from as int)) matches Some(m) ==> (out matches Some(v) && {
            &&& m <= u64::MAX ==> v == m
            &&& m > u64::MAX ==> u64::MAX < v <= 2 * ceiling() * 1000
        }),
{
    let ghost s = chars@.skip(from as int);
    let n = chars.len();
    let mut p: usize = from;
    while p < n && chars[p] != '.'
        invariant
            from <= p <= n,
            n == chars.len(),
            s == chars@.skip(from as int),
            forall|i: int| 0 <= i < p - from ==> s[i] != '.',
        decreases n - p,
    {
        p += 1;
    }
    proof {
        point_found(s, 0, p - from);
        assert(chars@.subrange(from as int, p as int) =~= s.take(p - from));
        assert(p == n ==> s.take(p - from) =~= s);
    }
    let whole = match read_digits(chars, from, p) {
        Some(v) => v,
        None => {
            return None;
        },
    };
    if p == n {
        return Some(whole * 1000);
    }
    let first: usize = p + 1;
    proof {
        assert(chars@.subrange(first as int, n as int) =~= s.skip(p - from + 1));
    }
    match read_digits(chars, first, n) {
        Some(_) => {
            let ghost fraction = s.skip(p - from + 1);
            proof {
                assert forall|i: int| 0 <= i < fraction.len() implies #[trigger] fraction[i]
                    == chars@[first + i] && is_digit(chars@[first + i]) by {
                    assert(is_digit(fraction[i]));
                }
                assert(0 < fraction.len() ==> fraction[0] == chars@[first + 0]);
                assert(1 < fraction.len() ==> fraction[1] == chars@[first + 1]);
                assert(2 < fraction.len() ==> fraction[2] == chars@[first + 2]);
            }
            let rest: u128 = 100 * fraction_digit(chars, first, 0) + 10 * fraction_digit(
                chars,
                first,
                1,
            ) + fraction_digit(chars, first, 2);
            Some(whole * 1000 + rest)
        },
        None => None,
    }
}

/// The decimal that `text` writes, in whole thousandths, as far as the range
/// goes.
pub fn parse_milli(text: &str) -> (out: Option<i64>)
    ensures
        out == match milli_of(text@) {
            Some(m) => Some(saturated_i64(m) as i64),
            None => None,
        },
{
    let chars = chars_of(text);
    if chars.len() > 0 && chars[0] == '-' {
        match read_milli(&chars, 1) {
            Some(m) => Some(saturate_i64(-(m as i128))),
            None => None,
        }
    } else {
        assert(chars@.skip(0) =~= text@);
        match read_milli(&chars, 0) {
            Some(m) => Some(saturate_i64(m as i128)),
            None => None,
        }
    }
}

/// Whether a point stands in `text`.
pub fn has_point(text: &str) -> (out: bool)
    ensures
        out == (point(text@, 0) < text@.len()),
{
    let chars = chars_of(text);
    let mut at: usize = 0;
    while at < chars.len()
        invariant
            at <= chars@.len(),
            chars@ == text@,
            point(text@, 0) == point(text@, at as int),
        decreases chars@.len() - at,
    {
        if chars[at] == '.' {
            return true;
        }
        at += 1;
    }
    false
}

// --- numbers with an exponent ----------------------------------------------------

pub open spec fn power10(n: nat) -> nat
    decreases n,
{
    if n == 0 {
        1
    } else {
        10 * power10((n - 1) as nat)
    }
}

/// `n` moved by so many decimal places, with the fraction dropped.
pub open spec fn shifted(n: nat, places: int) -> nat {
    if places >= 0 {
        n * power10(places as nat)
    } else {
        n / power10((-places) as nat)
    }
}

/// Where the exponent begins, or the end.
pub open spec fn exponent_mark(s: Seq<char>, from: int) -> int
    decreases s.len() - from,
{
    if from >= s.len() || s[from] == 'e' || s[from] == 'E' {
        from
    } else {
        exponent_mark(s, from + 1)
    }
}

/// The digits of a decimal, on both sides of its point, and how many of them
/// stand behind it. At most thirty are read.
pub open spec fn mantissa(s: Seq<char>) -> Option<(Seq<char>, int)> {
    let p = point(s, 0);
    let fraction = if p < s.len() {
        s.skip(p + 1)
    } else {
        Seq::empty()
    };
    if is_digits(s.take(p)) && (p < s.len() ==> is_digits(fraction)) && p + fraction.len() <= 30 {
        Some((s.take(p) + fraction, fraction.len() as int))
    } else {
        None
    }
}

/// A number without a sign, with an exponent or none, moved by so many decimal
/// places.
pub open spec fn scientific_magnitude(s: Seq<char>, places: int) -> Option<nat> {
    let e = exponent_mark(s, 0);
    let exponent = if e < s.len() {
        int_of(s.skip(e + 1))
    } else {
        Some(0)
    };
    match (mantissa(s.take(e)), exponent) {
        (Some((digits, behind)), Some(x)) => Some(
            shifted(digits_value(digits), x - behind + places),
        ),
        _ => None,
    }
}

/// A number as JSON writes it, moved by so many decimal places.
pub open spec fn scientific_of(s: Seq<char>, places: int) -> Option<int> {
    if s.len() > 0 && s[0] == '-' {
        match scientific_magnitude(s.skip(1), places) {
            Some(m) => Some(-m),
            None => None,
        }
    } else {
        match scientific_magnitude(s, places) {
            Some(m) => Some(m as int),
            None => None,
        }
    }
}

proof fn power10_grows(a: nat, b: nat)
    requires
        a <= b,
    ensures
        0 < power10(a) <= power10(b),
    decreases b,
{
    if b > 0 {
        if a == b {
            power10_grows((a - 1) as nat, (b - 1) as nat);
        } else {
            power10_grows(a, (b - 1) as nat);
        }
    }
}

proof fn digits_bound(s: Seq<char>)
    requires
        forall|i: int| 0 <= i < s.len() ==> is_digit(#[trigger] s[i]),
    ensures
        digits_value(s) < power10(s.len()),
    decreases s.len(),
{
    if s.len() > 0 {
        let front = s.drop_last();
        assert forall|i: int| 0 <= i < front.len() implies is_digit(#[trigger] front[i]) by {
            assert(is_digit(s[i]));
        }
        assert(is_digit(s[s.len() - 1]));
        digits_bound(front);
    }
}

proof fn power10_of_thirty()
    ensures
        power10(30) == ceiling(),
{
    reveal_with_fuel(power10, 31);
}

proof fn exponent_found(s: Seq<char>, from: int, e: int)
    requires
        0 <= from <= e <= s.len(),
        e < s.len() ==> s[e] == 'e' || s[e] == 'E',
        forall|i: int| from <= i < e ==> s[i] != 'e' && s[i] != 'E',
    ensures
        exponent_mark(s, from) == e,
    decreases e - from,
{
    if from < e {
        exponent_found(s, from + 1, e);
    }
}

/// `n`, moved by so many decimal places, as far as it matters.
fn shift(n: u128, places: i128) -> (out: u128)
    requires
        n < ceiling(),
    ensures
        out == capped(shifted(n as nat, places as int)),
{
    proof {
        power10_of_thirty();
    }
    if n == 0 {
        proof {
            if places >= 0 {
                assert(0 * power10(places as nat) == 0) by (nonlinear_arith);
            } else {
                power10_grows(0, (-places) as nat);
                let d = power10((-places) as nat) as int;
                assert(0int / d == 0) by (nonlinear_arith)
                    requires
                        d > 0,
                ;
            }
        }
        return 0;
    }
    if places > 30 {
        proof {
            power10_grows(31, places as nat);
            let d = power10(places as nat);
            assert(power10(31) == 10 * power10(30));
            assert(n * d >= d) by (nonlinear_arith)
                requires
                    n >= 1,
                    d >= 0,
            ;
        }
        return 1_000_000_000_000_000_000_000_000_000_000;
    }
    if places < -30 {
        proof {
            power10_grows(30, (-places) as nat);
            let d = power10((-places) as nat) as int;
            assert(n as int / d == 0) by (nonlinear_arith)
                requires
                    0 <= n < d,
            ;
        }
        return 0;
    }
    let mut value: u128 = n;
    if places >= 0 {
        let times: usize = places as usize;
        assert(n * power10(0) == n) by (nonlinear_arith)
            requires
                power10(0) == 1,
        ;
        for i in 0..times
            invariant
                value == capped(n as nat * power10(i as nat)),
        {
            proof {
                let p = power10(i as nat);
                assert(power10((i + 1) as nat) == 10 * p);
                assert(n as nat * (10 * p) == 10 * (n as nat * p)) by (nonlinear_arith);
            }
            let next: u128 = value * 10;
            value = if next > 1_000_000_000_000_000_000_000_000_000_000 {
                1_000_000_000_000_000_000_000_000_000_000
            } else {
                next
            };
        }
    } else {
        let times: usize = (-places) as usize;
        assert(n as int / 1 == n);
        assert(power10(0) == 1);
        for i in 0..times
            invariant
                value == n as nat / power10(i as nat),
        {
            proof {
                let p = power10(i as nat) as int;
                power10_grows(0, i as nat);
                assert(power10((i + 1) as nat) == 10 * p);
                vstd::arithmetic::div_mod::lemma_div_denominator(n as int, p, 10);
                assert(p * 10 == 10 * p);
            }
            value = value / 10;
        }
        proof {
            let p = power10((-places) as nat) as int;
            power10_grows(0, (-places) as nat);
            assert(n as int / p <= n) by (nonlinear_arith)
                requires
                    n >= 0,
                    p >= 1,
            ;
        }
    }
    value
}

/// The digits of a decimal in `chars[from..to]`, and how many stand behind the
/// point.
fn read_mantissa(chars: &Vec<char>, from: usize, to: usize) -> (out: Option<(u128, usize)>)
    requires
        from <= to <= chars.len(),
    ensures
        match (out, mantissa(chars@.subrange(from as int, to as int))) {
            (Some((value, behind)), Some((digits, places))) => {
                &&& value == digits_value(digits)
                &&& value < ceiling()
                &&& behind == places
                &&& behind <= 30
            },
            (None, None) => true,
            _ => false,
        },
{
    let ghost s = chars@.subrange(from as int, to as int);
    let mut p: usize = from;
    while p < to && chars[p] != '.'
        invariant
            from <= p <= to <= chars.len(),
            s == chars@.subrange(from as int, to as int),
            forall|i: int| 0 <= i < p - from ==> s[i] != '.',
        decreases to - p,
    {
        assert(s[p - from] == chars@[p as int]);
        p += 1;
    }
    let ghost at = p - from;
    proof {
        if p < to {
            assert(s[at] == chars@[p as int]);
        }
        point_found(s, 0, at);
        assert(chars@.subrange(from as int, p as int) =~= s.take(at));
    }
    if read_digits(chars, from, p).is_none() {
        return None;
    }
    let first: usize = if p < to {
        p + 1
    } else {
        p
    };
    let ghost fraction = if p < to {
        s.skip(at + 1)
    } else {
        Seq::<char>::empty()
    };
    proof {
        assert(chars@.subrange(first as int, to as int) =~= fraction);
    }
    if p < to && read_digits(chars, first, to).is_none() {
        return None;
    }
    let behind: usize = to - first;
    if p - from > 30 || behind > 30 - (p - from) {
        return None;
    }
    let mut digits: Vec<char> = Vec::new();
    for i in from..p
        invariant
            p <= chars.len(),
            digits@ == chars@.subrange(from as int, i as int),
    {
        digits.push(chars[i]);
        assert(digits@ =~= chars@.subrange(from as int, i + 1));
    }
    let ghost whole = digits@;
    assert(whole + chars@.subrange(first as int, first as int) =~= whole);
    for i in first..to
        invariant
            to <= chars.len(),
            digits@ == whole + chars@.subrange(first as int, i as int),
    {
        digits.push(chars[i]);
        assert(digits@ =~= whole + chars@.subrange(first as int, i + 1));
    }
    proof {
        assert(digits@ == s.take(at) + fraction);
        assert forall|i: int| 0 <= i < digits@.len() implies is_digit(#[trigger] digits@[i]) by {
            if i < whole.len() {
                assert(digits@[i] == s.take(at)[i]);
            } else {
                assert(digits@[i] == fraction[i - whole.len()]);
            }
        }
        digits_bound(digits@);
        power10_grows(digits@.len(), 30);
        power10_of_thirty();
        assert(digits@.subrange(0, digits@.len() as int) =~= digits@);
    }
    match read_digits(&digits, 0, digits.len()) {
        Some(value) => Some((value, behind)),
        None => None,
    }
}

fn read_scientific(chars: &Vec<char>, from: usize, places: u32) -> (out: Option<u128>)
    requires
        from <= chars.len(),
    ensures
        match (out, scientific_magnitude(chars@.skip(from as int), places as int)) {
            (Some(value), Some(m)) => value == capped(m),
            (None, None) => true,
            _ => false,
        },
{
    let ghost s = chars@.skip(from as int);
    let n = chars.len();
    let mut e: usize = from;
    while e < n && chars[e] != 'e' && chars[e] != 'E'
        invariant
            from <= e <= n,
            n == chars.len(),
            s == chars@.skip(from as int),
            forall|i: int| 0 <= i < e - from ==> s[i] != 'e' && s[i] != 'E',
        decreases n - e,
    {
        assert(s[e - from] == chars@[e as int]);
        e += 1;
    }
    proof {
        if e < n {
            assert(s[e - from] == chars@[e as int]);
        }
        exponent_found(s, 0, e - from);
        assert(chars@.subrange(from as int, e as int) =~= s.take(e - from));
    }
    let (digits, behind) = match read_mantissa(chars, from, e) {
        Some(read) => read,
        None => {
            return None;
        },
    };
    let exponent: i128 = if e < n {
        let text = crate::text::piece(chars, e + 1, n);
        assert(text@ =~= s.skip(e - from + 1));
        match read_int(text.as_str()) {
            Some(x) => x,
            None => {
                return None;
            },
        }
    } else {
        0
    };
    let by: i128 = exponent - behind as i128 + places as i128;
    proof {
        let x = if e < n {
            int_of(s.skip(e - from + 1))->0
        } else {
            0
        };
        if exponent != x {
            far_shift(digits as nat, by as int, x - behind + places);
        }
    }
    Some(shift(digits, by))
}

/// Beyond thirty places, it does not matter by how much a number is moved.
proof fn far_shift(n: nat, a: int, b: int)
    requires
        n < ceiling(),
        (a > 30 && b > 30) || (a < -30 && b < -30),
    ensures
        capped(shifted(n, a)) == capped(shifted(n, b)),
{
    far_shift_of(n, a);
    far_shift_of(n, b);
}

proof fn far_shift_of(n: nat, a: int)
    requires
        n < ceiling(),
        a > 30 || a < -30,
    ensures
        capped(shifted(n, a)) == if n == 0 || a < 0 {
            0
        } else {
            ceiling()
        },
{
    power10_of_thirty();
    if a > 30 {
        power10_grows(31, a as nat);
        let d = power10(a as nat);
        assert(power10(31) == 10 * power10(30));
        if n == 0 {
            assert(0 * d == 0) by (nonlinear_arith);
        } else {
            assert(n * d >= d) by (nonlinear_arith)
                requires
                    n >= 1,
                    d >= 0,
            ;
        }
    } else {
        power10_grows(30, (-a) as nat);
        let d = power10((-a) as nat) as int;
        assert(n as int / d == 0) by (nonlinear_arith)
            requires
                0 <= n < d,
        ;
    }
}

/// The number that `text` writes as JSON does, moved by so many decimal places,
/// as far as the range goes.
pub fn parse_scientific(text: &str, places: u32) -> (out: Option<i64>)
    ensures
        out == match scientific_of(text@, places as int) {
            Some(m) => Some(saturated_i64(m) as i64),
            None => None,
        },
{
    let chars = chars_of(text);
    if chars.len() > 0 && chars[0] == '-' {
        match read_scientific(&chars, 1, places) {
            Some(m) => Some(saturate_i64(-(m as i128))),
            None => None,
        }
    } else {
        assert(chars@.skip(0) =~= text@);
        match read_scientific(&chars, 0, places) {
            Some(m) => Some(saturate_i64(m as i128)),
            None => None,
        }
    }
}

// --- laws ----------------------------------------------------------------------

/// A number that is written in decimal is read back.
pub proof fn a_written_number_is_read_back(n: nat)
    ensures
        is_digits(decimal(n)),
        digits_value(decimal(n)) == n,
    decreases n,
{
    let s = decimal(n);
    if n < 10 {
        assert(s.drop_last() =~= Seq::<char>::empty());
        assert(digits_value(s.drop_last()) == 0);
        assert(is_digit(s[0]));
    } else {
        a_written_number_is_read_back(n / 10);
        let front = decimal(n / 10);
        assert(s.drop_last() =~= front);
        assert forall|i: int| 0 <= i < s.len() implies is_digit(#[trigger] s[i]) by {
            if i < front.len() {
                assert(s[i] == front[i]);
            }
        }
    }
}

/// What the digits of a number are to a reader of decimals: no point, no exponent,
/// and few enough to be read in full.
proof fn digits_are_plain(n: nat)
    requires
        n < 1_000_000_000_000_000,
    ensures
        exponent_mark(decimal(n), 0) == decimal(n).len(),
        mantissa(decimal(n)) == Some((decimal(n), 0int)),
        forall|i: int|
            0 <= i < decimal(n).len() ==> (#[trigger] decimal(n)[i]) != 'e' && decimal(n)[i] != 'E'
                && decimal(n)[i] != '-',
{
    let digits = decimal(n);
    a_written_number_is_read_back(n);
    assert forall|i: int| 0 <= i < digits.len() implies (#[trigger] digits[i]) != 'e' && digits[i]
        != 'E' && digits[i] != '.' && digits[i] != '-' by {
        assert(is_digit(digits[i]));
    }
    point_found(digits, 0, digits.len() as int);
    exponent_found(digits, 0, digits.len() as int);
    decimal_is_short(n, 15);
    assert(digits.take(digits.len() as int) =~= digits);
    assert(digits + Seq::<char>::empty() =~= digits);
}

/// A whole number that is written with its sign is read back, as an integer and in
/// thousandths.
pub proof fn a_signed_number_is_read_back(n: int)
    ensures
        int_of(signed(n)) == Some(n),
        milli_of(signed(n)) == Some(n * 1000),
{
    let s = signed(n);
    let m = if n < 0 {
        (-n) as nat
    } else {
        n as nat
    };
    let digits = decimal(m);
    a_written_number_is_read_back(m);
    assert(is_digit(digits[0]));
    if n < 0 {
        assert(s.skip(1) =~= digits);
        assert(!is_digit(s[0]));
        assert(!is_digits(s));
    } else {
        assert(s =~= digits);
    }
    assert forall|i: int| 0 <= i < digits.len() implies digits[i] != '.' by {
        assert(is_digit(digits[i]));
    }
    point_found(digits, 0, digits.len() as int);
}

/// A whole number that is written with its sign is read back as JSON has it, in
/// any fraction.
pub proof fn a_json_number_is_read_back(n: int, places: nat)
    requires
        -1_000_000_000_000_000 < n < 1_000_000_000_000_000,
    ensures
        scientific_of(signed(n), places as int) == Some(n * power10(places)),
{
    let m = if n < 0 {
        (-n) as nat
    } else {
        n as nat
    };
    let digits = decimal(m);
    digits_are_plain(m);
    a_written_number_is_read_back(m);
    assert(digits.take(digits.len() as int) =~= digits);
    assert(scientific_magnitude(digits, places as int) == Some(m * power10(places)));
    if n < 0 {
        assert(signed(n).skip(1) =~= digits);
        assert((-n) * power10(places) == -(n * power10(places))) by (nonlinear_arith);
    } else {
        assert(digits[0] != '-');
    }
}

/// A thousand and a million, as powers of ten.
pub proof fn powers_of_ten()
    ensures
        power10(0) == 1,
        power10(3) == 1000,
        power10(6) == 1_000_000,
{
    reveal_with_fuel(power10, 7);
}

/// A number below a power of ten has no more digits than that power.
proof fn decimal_is_short(n: nat, places: nat)
    requires
        places >= 1,
        n < power10(places) || (places == 15 && n < 1_000_000_000_000_000),
    ensures
        decimal(n).len() <= places,
    decreases places,
{
    reveal_with_fuel(power10, 2);
    if places == 15 {
        assert(power10(15) == 1_000_000_000_000_000) by {
            reveal_with_fuel(power10, 16);
        }
    }
    if n >= 10 {
        if places == 1 {
            assert(power10(0) == 1);
        } else {
            assert(n / 10 < power10((places - 1) as nat));
            decimal_is_short(n / 10, (places - 1) as nat);
        }
    }
}

/// A decimal with an exponent is worth its digits times that power of ten.
pub proof fn an_exponent_moves_the_point(n: nat, x: nat, places: nat)
    requires
        n < 1_000_000_000_000_000,
    ensures
        scientific_of(decimal(n) + seq!['e'] + decimal(x), places as int) == Some(
            (n * power10((x + places) as nat)) as int,
        ),
{
    let digits = decimal(n);
    digits_are_plain(n);
    a_written_number_is_read_back(n);
    a_written_number_is_read_back(x);
    let up = digits + seq!['e'] + decimal(x);
    let e = digits.len() as int;
    assert forall|i: int| 0 <= i < e implies up[i] != 'e' && up[i] != 'E' by {
        assert(up[i] == digits[i]);
    }
    exponent_found(up, 0, e);
    assert(up.take(e) =~= digits);
    assert(up.skip(e + 1) =~= decimal(x));
    assert(up[0] == digits[0] && digits[0] != '-');
    assert(int_of(decimal(x)) == Some(x as int));
}

/// A negative exponent takes the point the other way: what falls below the grain
/// is dropped.
pub proof fn a_negative_exponent_moves_the_point_back(n: nat, x: nat, places: nat)
    requires
        n < 1_000_000_000_000_000,
        x > places,
    ensures
        scientific_of(decimal(n) + seq!['e', '-'] + decimal(x), places as int) == Some(
            (n / power10((x - places) as nat)) as int,
        ),
{
    let digits = decimal(n);
    digits_are_plain(n);
    a_written_number_is_read_back(n);
    a_signed_number_is_read_back(-(x as int));
    let down = digits + seq!['e', '-'] + decimal(x);
    let e = digits.len() as int;
    assert forall|i: int| 0 <= i < e implies down[i] != 'e' && down[i] != 'E' by {
        assert(down[i] == digits[i]);
    }
    exponent_found(down, 0, e);
    assert(down.take(e) =~= digits);
    assert(down.skip(e + 1) =~= signed(-(x as int)));
    assert(down[0] == digits[0] && digits[0] != '-');
}

} // verus!
