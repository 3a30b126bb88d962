//! Text: what numbers look like in decimal, and how identifiers are ordered.
//!
//! Every string that leaves the controller is pinned by a specification over
//! sequences of characters. The functions here are the bridge between the two.

use vstd::prelude::*;

verus! {

/// `String::push`: appends one character at the end.
pub assume_specification[ String::push ](s: &mut String, c: char)
    ensures
        final(s)@ == old(s)@.push(c),
;

/// `str`'s `==`: true exactly when both hold the same characters.
pub assume_specification[ <str as PartialEq>::eq ](s: &str, other: &str) -> (same: bool)
    ensures
        same == (s@ == other@),
;

/// The characters of `s`, one by one.
pub fn chars_of(s: &str) -> (out: Vec<char>)
    ensures
        out@ == s@,
{
    let mut out: Vec<char> = Vec::new();
    for c in it: s.chars()
        invariant
            it.seq() == s@,
            out@ == s@.take(it.index()),
    {
        out.push(c);
    }
    out
}

/// The string that holds `chars`.
pub fn string_of(chars: &[char]) -> (out: String)
    ensures
        out@ == chars@,
{
    let mut out = String::new();
    for i in 0..chars.len()
        invariant
            out@ == chars@.take(i as int),
    {
        out.push(chars[i]);
    }
    out
}

/// Both hold the same characters.
pub fn same(a: &str, b: &str) -> (out: bool)
    ensures
        out == (a@ == b@),
{
    *a == *b
}

/// `text` with ASCII letters in lower case.
pub fn lowercase(text: &str) -> (out: String)
    ensures
        out@ == text@.map_values(|c: char| lower(c)),
{
    let chars = chars_of(text);
    let mut out = String::new();
    for i in 0..chars.len()
        invariant
            chars@ == text@,
            out@ == text@.take(i as int).map_values(|c: char| lower(c)),
    {
        let c = chars[i];
        if 'A' <= c && c <= 'Z' {
            out.push((c as u8 + 32) as char);
        } else {
            out.push(c);
        }
        assert(out@ =~= text@.take(i + 1).map_values(|c: char| lower(c)));
    }
    assert(text@.take(text@.len() as int) =~= text@);
    out
}

/// What a string looks like in quotes, with escapes.
pub uninterp spec fn quoted(s: Seq<char>) -> Seq<char>;

/// `str`'s `Debug`: the string in quotes, with escapes. What exactly is escaped
/// is left unsaid.
#[verifier::external_body]
fn debug_of(s: &str) -> (out: String)
    ensures
        out@ == quoted(s@),
{
    format!("{s:?}")
}

/// Appends a string in quotes, with escapes.
pub fn push_quoted(out: &mut String, s: &str)
    ensures
        final(out)@ == old(out)@ + quoted(s@),
{
    let text = debug_of(s);
    out.append(text.as_str());
}

/// Space, in every form that Unicode knows.
pub open spec fn is_white(c: char) -> bool {
    ||| '\u{9}' <= c <= '\u{d}'
    ||| c == ' '
    ||| c == '\u{85}'
    ||| c == '\u{a0}'
    ||| c == '\u{1680}'
    ||| '\u{2000}' <= c <= '\u{200a}'
    ||| c == '\u{2028}'
    ||| c == '\u{2029}'
    ||| c == '\u{202f}'
    ||| c == '\u{205f}'
    ||| c == '\u{3000}'
}

fn white(c: char) -> (out: bool)
    ensures
        out == is_white(c),
{
    ('\u{9}' <= c && c <= '\u{d}') || c == ' ' || c == '\u{85}' || c == '\u{a0}' || c == '\u{1680}'
        || ('\u{2000}' <= c && c <= '\u{200a}') || c == '\u{2028}' || c == '\u{2029}' || c
        == '\u{202f}' || c == '\u{205f}' || c == '\u{3000}'
}

/// `s` without the space at both ends.
pub open spec fn trimmed(s: Seq<char>) -> Seq<char>
    decreases s.len(),
{
    if s.len() > 0 && is_white(s[0]) {
        trimmed(s.skip(1))
    } else if s.len() > 0 && is_white(s.last()) {
        trimmed(s.drop_last())
    } else {
        s
    }
}

/// Nothing but space.
pub open spec fn is_blank(s: Seq<char>) -> bool {
    forall|i: int| 0 <= i < s.len() ==> is_white(#[trigger] s[i])
}

/// Whether a text is nothing but space.
pub fn blank(text: &str) -> (out: bool)
    ensures
        out == is_blank(text@),
{
    let chars = chars_of(text);
    for i in 0..chars.len()
        invariant
            chars@ == text@,
            forall|k: int| 0 <= k < i ==> is_white(#[trigger] chars@[k]),
    {
        if !white(chars[i]) {
            assert(!is_white(text@[i as int]));
            return false;
        }
    }
    true
}

/// A character in lower case, where it is an ASCII letter.
pub open spec fn lower(c: char) -> char {
    if 'A' <= c <= 'Z' {
        (c as int + 32) as char
    } else {
        c
    }
}

/// Without space at both ends, and with ASCII letters in lower case.
pub open spec fn normal(s: Seq<char>) -> Seq<char> {
    trimmed(s).map_values(|c: char| lower(c))
}

/// `text` without space at both ends, and with ASCII letters in lower case.
pub fn normalize(text: &str) -> (out: String)
    ensures
        out@ == normal(text@),
{
    let chars = chars_of(text);
    let mut from: usize = 0;
    let mut to: usize = chars.len();
    assert(chars@.subrange(0, to as int) =~= text@);
    while from < to && white(chars[from])
        invariant
            from <= to == chars.len(),
            chars@ == text@,
            trimmed(text@) == trimmed(chars@.subrange(from as int, to as int)),
        decreases to - from,
    {
        assert(chars@.subrange(from as int, to as int).skip(1) =~= chars@.subrange(
            from + 1,
            to as int,
        ));
        from += 1;
    }
    while from < to && white(chars[to - 1])
        invariant
            from <= to <= chars.len(),
            chars@ == text@,
            from < to ==> !is_white(chars@[from as int]),
            trimmed(text@) == trimmed(chars@.subrange(from as int, to as int)),
        decreases to - from,
    {
        assert(chars@.subrange(from as int, to as int).drop_last() =~= chars@.subrange(
            from as int,
            to - 1,
        ));
        to -= 1;
    }
    let ghost inner = chars@.subrange(from as int, to as int);
    assert(trimmed(inner) == inner);
    let mut out = String::new();
    let mut i: usize = from;
    while i < to
        invariant
            from <= i <= to <= chars.len(),
            inner == chars@.subrange(from as int, to as int),
            out@ == inner.take(i - from).map_values(|c: char| lower(c)),
        decreases to - i,
    {
        let c = chars[i];
        let ghost so_far = out@;
        if 'A' <= c && c <= 'Z' {
            out.push((c as u8 + 32) as char);
        } else {
            out.push(c);
        }
        assert(out@ =~= inner.take(i + 1 - from).map_values(|c: char| lower(c)));
        i += 1;
    }
    assert(inner.take(to - from) =~= inner);
    out
}

// --- decimal -------------------------------------------------------------------

/// The character of one decimal digit.
pub open spec fn digit(d: int) -> char {
    (d + 48) as char
}

/// `n` in decimal, without leading zeros.
pub open spec fn decimal(n: nat) -> Seq<char>
    decreases n,
{
    if n < 10 {
        seq![digit(n as int)]
    } else {
        decimal(n / 10).push(digit((n % 10) as int))
    }
}

/// `n` in decimal, with a minus sign in front when it is negative.
pub open spec fn signed(n: int) -> Seq<char> {
    if n < 0 {
        seq!['-'] + decimal((-n) as nat)
    } else {
        decimal(n as nat)
    }
}

fn digit_char(d: u8) -> (c: char)
    requires
        d < 10,
    ensures
        c == digit(d as int),
{
    (d + 48) as char
}

/// Appends `n` in decimal.
pub fn push_decimal(s: &mut String, n: u128)
    ensures
        final(s)@ == old(s)@ + decimal(n as nat),
    decreases n,
{
    if n < 10 {
        s.push(digit_char(n as u8));
        assert(s@ =~= old(s)@ + decimal(n as nat));
    } else {
        push_decimal(s, n / 10);
        s.push(digit_char((n % 10) as u8));
        assert(s@ =~= old(s)@ + decimal(n as nat));
    }
}

/// Appends `n` in decimal, with a minus sign in front when it is negative.
pub fn push_signed(s: &mut String, n: i128)
    ensures
        final(s)@ == old(s)@ + signed(n as int),
{
    if n < 0 {
        s.push('-');
        let magnitude: u128 = if n == i128::MIN {
            0x8000_0000_0000_0000_0000_0000_0000_0000
        } else {
            (-n) as u128
        };
        push_decimal(s, magnitude);
        assert(s@ =~= old(s)@ + signed(n as int));
    } else {
        push_decimal(s, n as u128);
    }
}

/// `n` in decimal.
pub fn decimal_string(n: u64) -> (out: String)
    ensures
        out@ == decimal(n as nat),
{
    let mut out = String::new();
    push_decimal(&mut out, n as u128);
    assert(out@ =~= decimal(n as nat));
    out
}

/// `num / den` rounded to the nearest whole number, ties to the even one.
pub open spec fn half_even(num: nat, den: nat) -> nat {
    let whole = num / den;
    let twice = 2 * (num % den);
    if twice > den || (twice == den && whole % 2 == 1) {
        whole + 1
    } else {
        whole
    }
}

/// `num / den` rounded to the nearest whole number, ties to the even one.
pub fn round_half_even(num: u128, den: u128) -> (out: u128)
    requires
        0 < den <= 0x4000_0000_0000_0000_0000_0000_0000_0000,
    ensures
        out == half_even(num as nat, den as nat),
        out <= num,
{
    let whole: u128 = num / den;
    let twice: u128 = 2 * (num % den);
    proof {
        assert(whole <= num && (num % den >= 1 ==> whole + 1 <= num)) by (nonlinear_arith)
            requires
                whole == num / den,
                0 < den,
                num >= 0,
                num % den >= 1 ==> (den >= 2 || num % den == 0),
        {
            assert(num == den * (num / den) + num % den);
        }
    }
    if twice > den || (twice == den && whole % 2 == 1) {
        whole + 1
    } else {
        whole
    }
}

/// A quantity held in thousandths, as a whole number: rounded to the nearest,
/// ties to even. Anything below zero keeps its sign, even when it rounds to
/// zero.
pub open spec fn whole_of_milli(milli: int) -> Seq<char> {
    if milli < 0 {
        seq!['-'] + decimal(half_even((-milli) as nat, 1000))
    } else {
        decimal(half_even(milli as nat, 1000))
    }
}

/// Appends a quantity held in thousandths as a whole number.
pub fn push_whole_of_milli(s: &mut String, milli: i128)
    ensures
        final(s)@ == old(s)@ + whole_of_milli(milli as int),
{
    if milli < 0 {
        s.push('-');
        let magnitude: u128 = if milli == i128::MIN {
            0x8000_0000_0000_0000_0000_0000_0000_0000
        } else {
            (-milli) as u128
        };
        push_decimal(s, round_half_even(magnitude, 1000));
        assert(s@ =~= old(s)@ + whole_of_milli(milli as int));
    } else {
        push_decimal(s, round_half_even(milli as u128, 1000));
    }
}

/// A quantity held in tenths, with its one decimal.
pub open spec fn with_tenths(tenths: nat) -> Seq<char> {
    decimal(tenths / 10) + seq!['.', digit((tenths % 10) as int)]
}

/// Appends a quantity held in tenths, with its one decimal.
pub fn push_with_tenths(s: &mut String, tenths: u128)
    ensures
        final(s)@ == old(s)@ + with_tenths(tenths as nat),
{
    push_decimal(s, tenths / 10);
    s.push('.');
    s.push(digit_char((tenths % 10) as u8));
    assert(s@ =~= old(s)@ + with_tenths(tenths as nat));
}

/// A quantity held in hundredths, with its two decimals.
pub open spec fn with_hundredths(hundredths: nat) -> Seq<char> {
    decimal(hundredths / 100) + seq![
        '.',
        digit((hundredths / 10 % 10) as int),
        digit((hundredths % 10) as int),
    ]
}

/// Appends a quantity held in hundredths, with its two decimals.
pub fn push_with_hundredths(s: &mut String, hundredths: u128)
    ensures
        final(s)@ == old(s)@ + with_hundredths(hundredths as nat),
{
    push_decimal(s, hundredths / 100);
    s.push('.');
    s.push(digit_char((hundredths / 10 % 10) as u8));
    s.push(digit_char((hundredths % 10) as u8));
    assert(s@ =~= old(s)@ + with_hundredths(hundredths as nat));
}

/// The fraction of a quantity held in thousandths, without zeros at its end,
/// but with one digit at least.
pub open spec fn fraction(thousandths: nat) -> Seq<char> {
    if thousandths % 100 == 0 {
        seq![digit((thousandths / 100) as int)]
    } else if thousandths % 10 == 0 {
        seq![digit((thousandths / 100) as int), digit((thousandths / 10 % 10) as int)]
    } else {
        seq![
            digit((thousandths / 100) as int),
            digit((thousandths / 10 % 10) as int),
            digit((thousandths % 10) as int),
        ]
    }
}

/// A quantity held in thousandths, in full.
pub open spec fn in_full(milli: int) -> Seq<char> {
    let magnitude = if milli < 0 {
        (-milli) as nat
    } else {
        milli as nat
    };
    let sign: Seq<char> = if milli < 0 {
        seq!['-']
    } else {
        Seq::empty()
    };
    sign + decimal(magnitude / 1000) + seq!['.'] + fraction(magnitude % 1000)
}

/// Appends a quantity held in thousandths, in full.
pub fn push_in_full(s: &mut String, milli: i64)
    ensures
        final(s)@ == old(s)@ + in_full(milli as int),
{
    let magnitude: u128 = if milli < 0 {
        (-(milli as i128)) as u128
    } else {
        milli as u128
    };
    if milli < 0 {
        s.push('-');
    }
    push_decimal(s, magnitude / 1000);
    s.push('.');
    let rest: u128 = magnitude % 1000;
    s.push(digit_char((rest / 100) as u8));
    if rest % 100 != 0 {
        s.push(digit_char((rest / 10 % 10) as u8));
        if rest % 10 != 0 {
            s.push(digit_char((rest % 10) as u8));
        }
    }
    assert(s@ =~= old(s)@ + in_full(milli as int));
}

// --- lines ---------------------------------------------------------------------

/// The characters of each of a list of strings.
pub open spec fn views(strings: Seq<String>) -> Seq<Seq<char>> {
    strings.map_values(|s: String| s@)
}

/// `parts` one after the other, with `separator` between them.
pub open spec fn joined(parts: Seq<Seq<char>>, separator: Seq<char>) -> Seq<char>
    decreases parts.len(),
{
    if parts.len() == 0 {
        Seq::empty()
    } else if parts.len() == 1 {
        parts[0]
    } else {
        joined(parts.drop_last(), separator) + separator + parts.last()
    }
}

/// `parts` one after the other, with `separator` between them.
pub fn join(parts: &[String], separator: &str) -> (out: String)
    ensures
        out@ == joined(views(parts@), separator@),
{
    let mut out = String::new();
    for i in 0..parts.len()
        invariant
            out@ == joined(views(parts@).take(i as int), separator@),
    {
        if i > 0 {
            out.append(separator);
        }
        out.append(parts[i].as_str());
        proof {
            let taken = views(parts@).take(i + 1);
            assert(taken.drop_last() =~= views(parts@).take(i as int));
            assert(taken.last() == parts@[i as int]@);
            if i == 0 {
                assert(out@ =~= parts@[0]@);
            }
        }
    }
    assert(views(parts@).take(parts@.len() as int) =~= views(parts@));
    out
}

/// Where `c` first stands from `from` on, or the end.
pub open spec fn position(s: Seq<char>, c: char, from: int) -> int
    decreases s.len() - from,
{
    if from >= s.len() || s[from] == c {
        from
    } else {
        position(s, c, from + 1)
    }
}

/// `s` cut at every `c`, which is no part of any piece.
pub open spec fn split(s: Seq<char>, c: char) -> Seq<Seq<char>>
    decreases s.len(),
{
    let at = position(s, c, 0);
    if 0 <= at < s.len() {
        seq![s.take(at)] + split(s.skip(at + 1), c)
    } else {
        seq![s]
    }
}

pub proof fn position_found(s: Seq<char>, c: char, from: int, at: int)
    requires
        0 <= from <= at <= s.len(),
        at < s.len() ==> s[at] == c,
        forall|i: int| from <= i < at ==> s[i] != c,
    ensures
        position(s, c, from) == at,
    decreases at - from,
{
    if from < at {
        position_found(s, c, from + 1, at);
    }
}

/// Where `c` first stands, or the end.
pub fn find_char(chars: &Vec<char>, c: char, from: usize) -> (at: usize)
    requires
        from <= chars.len(),
    ensures
        from <= at <= chars.len(),
        at == position(chars@, c, from as int),
        at < chars.len() ==> chars@[at as int] == c,
        forall|i: int| from <= i < at ==> chars@[i] != c,
{
    let mut at: usize = from;
    while at < chars.len() && chars[at] != c
        invariant
            from <= at <= chars.len(),
            forall|i: int| from <= i < at ==> chars@[i] != c,
        decreases chars.len() - at,
    {
        at += 1;
    }
    proof {
        position_found(chars@, c, from as int, at as int);
    }
    at
}

/// The characters from `from` up to `to`.
pub fn piece(chars: &Vec<char>, from: usize, to: usize) -> (out: String)
    requires
        from <= to <= chars.len(),
    ensures
        out@ == chars@.subrange(from as int, to as int),
{
    string_of(vstd::slice::slice_subrange(chars.as_slice(), from, to))
}

/// `text` cut at every `c`.
pub fn split_text(text: &str, c: char) -> (out: Vec<String>)
    ensures
        views(out@) == split(text@, c),
{
    let chars = chars_of(text);
    let mut out: Vec<String> = Vec::new();
    let mut from: usize = 0;
    let mut at: usize = find_char(&chars, c, 0);
    assert(text@.skip(0) =~= text@);
    while at < chars.len()
        invariant
            from <= at <= chars.len(),
            chars@ == text@,
            at < chars.len() ==> text@[at as int] == c,
            forall|i: int| from <= i < at ==> text@[i] != c,
            views(out@) + split(text@.skip(from as int), c) == split(text@, c),
        decreases chars.len() - from,
    {
        let part = piece(&chars, from, at);
        let ghost so_far = out@;
        out.push(part);
        proof {
            let rest = text@.skip(from as int);
            position_found(rest, c, 0, at - from);
            assert(rest.take(at - from) =~= text@.subrange(from as int, at as int));
            assert(rest.skip(at - from + 1) =~= text@.skip(at + 1));
            assert(views(out@) =~= views(so_far).push(part@));
            assert(views(so_far) + (seq![part@] + split(text@.skip(at + 1), c)) =~= views(out@)
                + split(text@.skip(at + 1), c));
        }
        from = at + 1;
        at = find_char(&chars, c, from);
    }
    let last = piece(&chars, from, chars.len());
    let ghost so_far = out@;
    out.push(last);
    proof {
        let rest = text@.skip(from as int);
        position_found(rest, c, 0, rest.len() as int);
        assert(last@ =~= rest);
        assert(views(out@) =~= views(so_far) + seq![rest]);
    }
    out
}

/// A line without the carriage return that may end it.
pub open spec fn without_cr(line: Seq<char>) -> Seq<char> {
    if line.len() > 0 && line.last() == '\r' {
        line.drop_last()
    } else {
        line
    }
}

/// The first position of a line break from `from` on, or the end.
pub open spec fn line_end(s: Seq<char>, from: int) -> int
    decreases s.len() - from,
{
    if from >= s.len() || s[from] == '\n' {
        from
    } else {
        line_end(s, from + 1)
    }
}

/// The lines of `s` from `from` on. Line breaks are not part of a line, nor is
/// a carriage return before one; a break at the very end starts no line.
pub open spec fn lines_from(s: Seq<char>, from: int) -> Seq<Seq<char>>
    decreases s.len() - from,
{
    let end = line_end(s, from);
    if !(0 <= from < s.len()) || end < from {
        Seq::empty()
    } else if end >= s.len() {
        seq![s.subrange(from, s.len() as int)]
    } else {
        seq![without_cr(s.subrange(from, end))] + lines_from(s, end + 1)
    }
}

/// The lines of `s`.
pub open spec fn lines(s: Seq<char>) -> Seq<Seq<char>> {
    lines_from(s, 0)
}

proof fn line_end_is_next(s: Seq<char>, from: int)
    requires
        0 <= from <= s.len(),
    ensures
        from <= line_end(s, from) <= s.len(),
        line_end(s, from) < s.len() ==> s[line_end(s, from)] == '\n',
        forall|i: int| from <= i < line_end(s, from) ==> s[i] != '\n',
    decreases s.len() - from,
{
    if from < s.len() && s[from] != '\n' {
        line_end_is_next(s, from + 1);
    }
}

proof fn line_end_found(s: Seq<char>, from: int, end: int)
    requires
        0 <= from <= end <= s.len(),
        end < s.len() ==> s[end] == '\n',
        forall|i: int| from <= i < end ==> s[i] != '\n',
    ensures
        line_end(s, from) == end,
    decreases end - from,
{
    if from < end {
        line_end_found(s, from + 1, end);
    }
}

/// The lines of `text`.
pub fn lines_of(text: &str) -> (out: Vec<String>)
    ensures
        views(out@) == lines(text@),
{
    let chars = chars_of(text);
    let mut out: Vec<String> = Vec::new();
    let mut from: usize = 0;
    while from < chars.len()
        invariant
            from <= chars.len(),
            chars@ == text@,
            views(out@) + lines_from(text@, from as int) == lines(text@),
        decreases chars.len() - from,
    {
        let mut end: usize = from;
        while end < chars.len() && chars[end] != '\n'
            invariant
                from <= end <= chars.len(),
                chars@ == text@,
                forall|i: int| from <= i < end ==> text@[i] != '\n',
            decreases chars.len() - end,
        {
            end += 1;
        }
        proof {
            line_end_found(text@, from as int, end as int);
        }
        let ghost so_far = out@;
        let mut until: usize = end;
        if end < chars.len() && from < end && chars[end - 1] == '\r' {
            until = end - 1;
        }
        let line = string_of(vstd::slice::slice_subrange(chars.as_slice(), from, until));
        out.push(line);
        proof {
            let whole = text@.subrange(from as int, end as int);
            if end < chars.len() {
                assert(line@ =~= without_cr(whole));
                assert(lines_from(text@, from as int) == seq![line@] + lines_from(
                    text@,
                    end + 1,
                ));
            } else {
                assert(line@ =~= whole);
                assert(lines_from(text@, end + 1) =~= Seq::empty());
                assert(lines_from(text@, end as int) =~= Seq::empty());
            }
            assert(views(out@) =~= views(so_far).push(line@));
            assert(views(so_far) + (seq![line@] + lines_from(text@, end + 1)) =~= views(out@)
                + lines_from(text@, end + 1));
        }
        if end < chars.len() {
            from = end + 1;
        } else {
            from = end;
        }
    }
    assert(lines_from(text@, from as int) =~= Seq::empty());
    assert(views(out@) + Seq::<Seq<char>>::empty() =~= views(out@));
    out
}

/// Free of line breaks and carriage returns, and not empty.
pub open spec fn is_one_line(line: Seq<char>) -> bool {
    line.len() > 0 && forall|i: int|
        0 <= i < line.len() ==> #[trigger] line[i] != '\n' && line[i] != '\r'
}

/// Free of line breaks and carriage returns.
pub open spec fn is_clean(s: Seq<char>) -> bool {
    forall|i: int| 0 <= i < s.len() ==> #[trigger] s[i] != '\n' && s[i] != '\r'
}

/// Clean texts stay clean when they are put together.
pub proof fn clean_together(a: Seq<char>, b: Seq<char>)
    requires
        is_clean(a),
        is_clean(b),
    ensures
        is_clean(a + b),
{
}

/// Numbers are clean.
pub proof fn decimal_is_clean(n: nat)
    ensures
        is_clean(decimal(n)),
        decimal(n).len() > 0,
    decreases n,
{
    if n >= 10 {
        decimal_is_clean(n / 10);
    }
}

/// Numbers with a sign are clean.
pub proof fn signed_is_clean(n: int)
    ensures
        is_clean(signed(n)),
        signed(n).len() > 0,
{
    if n < 0 {
        decimal_is_clean((-n) as nat);
    } else {
        decimal_is_clean(n as nat);
    }
}

/// Clean texts stay clean when they are joined.
pub proof fn joined_is_clean(parts: Seq<Seq<char>>, separator: Seq<char>)
    requires
        is_clean(separator),
        forall|i: int| 0 <= i < parts.len() ==> is_clean(#[trigger] parts[i]),
    ensures
        is_clean(joined(parts, separator)),
    decreases parts.len(),
{
    if parts.len() == 1 {
        assert(is_clean(parts[0]));
    } else if parts.len() > 1 {
        let front = parts.drop_last();
        assert forall|i: int| 0 <= i < front.len() implies is_clean(#[trigger] front[i]) by {
            assert(front[i] == parts[i]);
        }
        joined_is_clean(front, separator);
        assert(is_clean(parts[parts.len() - 1]));
    }
}

/// Lines that were joined come apart again.
pub proof fn joined_lines_come_apart(parts: Seq<Seq<char>>)
    requires
        forall|i: int| 0 <= i < parts.len() ==> is_one_line(#[trigger] parts[i]),
    ensures
        lines(joined(parts, seq!['\n'])) == parts,
    decreases parts.len(),
{
    let whole = joined(parts, seq!['\n']);
    if parts.len() == 0 {
        assert(lines(whole) =~= parts);
    } else if parts.len() == 1 {
        assert(is_one_line(parts[0]));
        line_end_found(whole, 0, whole.len() as int);
        assert(whole.subrange(0, whole.len() as int) =~= whole);
        assert(lines(whole) =~= parts);
    } else {
        let front = parts.drop_last();
        assert forall|i: int| 0 <= i < front.len() implies is_one_line(#[trigger] front[i]) by {
            assert(front[i] == parts[i]);
        }
        joined_lines_come_apart(front);
        joined_ends_cleanly(front);
        assert(is_one_line(parts[parts.len() - 1]));
        one_more_line(joined(front, seq!['\n']), parts.last(), 0);
        assert(parts =~= front.push(parts.last()));
    }
}

proof fn joined_ends_cleanly(parts: Seq<Seq<char>>)
    requires
        parts.len() > 0,
        forall|i: int| 0 <= i < parts.len() ==> is_one_line(#[trigger] parts[i]),
    ensures
        joined(parts, seq!['\n']).len() > 0,
        joined(parts, seq!['\n']).last() != '\n',
        joined(parts, seq!['\n']).last() != '\r',
{
    let last = parts[parts.len() - 1];
    assert(is_one_line(last));
    assert(joined(parts, seq!['\n']).last() == last[last.len() - 1]);
}

proof fn one_more_line(front: Seq<char>, line: Seq<char>, from: int)
    requires
        0 <= from < front.len(),
        front.last() != '\n',
        front.last() != '\r',
        is_one_line(line),
    ensures
        lines_from(front + seq!['\n'] + line, from) == lines_from(front, from).push(line),
    decreases front.len() - from,
{
    let whole = front + seq!['\n'] + line;
    let end = line_end(front, from);
    line_end_is_next(front, from);
    line_end_found(whole, from, end);
    assert(whole.subrange(from, end) =~= front.subrange(from, end));
    if end < front.len() {
        assert(end + 1 < front.len());
        one_more_line(front, line, end + 1);
        assert(lines_from(whole, from) =~= lines_from(front, from).push(line));
    } else {
        let next = front.len() + 1;
        line_end_found(whole, next as int, whole.len() as int);
        assert(whole.subrange(next as int, whole.len() as int) =~= line);
        let tail = front.subrange(from, end);
        assert(tail.last() == front.last());
        assert(without_cr(tail) == tail);
        assert(whole[end] == '\n');
        assert(lines_from(whole, next as int) =~= seq![line]);
        assert(lines_from(whole, from) == seq![tail] + lines_from(whole, end + 1));
        assert(lines_from(front, from) == seq![tail]);
        assert(seq![tail] + seq![line] =~= seq![tail].push(line));
    }
}

// --- order ---------------------------------------------------------------------

/// Dictionary order by character: the order of device identifiers.
pub open spec fn before(a: Seq<char>, b: Seq<char>) -> bool
    decreases a.len(),
{
    if b.len() == 0 {
        false
    } else if a.len() == 0 {
        true
    } else if a[0] != b[0] {
        a[0] < b[0]
    } else {
        before(a.skip(1), b.skip(1))
    }
}

/// Nothing comes before itself.
pub proof fn before_is_irreflexive(a: Seq<char>)
    ensures
        !before(a, a),
    decreases a.len(),
{
    if a.len() > 0 {
        before_is_irreflexive(a.skip(1));
    }
}

/// The order is transitive.
pub proof fn before_is_transitive(a: Seq<char>, b: Seq<char>, c: Seq<char>)
    requires
        before(a, b),
        before(b, c),
    ensures
        before(a, c),
    decreases a.len(),
{
    if a.len() > 0 && a[0] == b[0] && b[0] == c[0] {
        before_is_transitive(a.skip(1), b.skip(1), c.skip(1));
    }
}

/// Of two different texts, one comes first.
pub proof fn before_is_total(a: Seq<char>, b: Seq<char>)
    ensures
        before(a, b) || before(b, a) || a == b,
    decreases a.len(),
{
    if a.len() == 0 || b.len() == 0 {
        assert(a.len() == b.len() ==> a =~= b);
    } else if a[0] == b[0] {
        before_is_total(a.skip(1), b.skip(1));
        if a.skip(1) == b.skip(1) {
            assert(a =~= seq![a[0]] + a.skip(1));
            assert(b =~= seq![b[0]] + b.skip(1));
        }
    }
}

/// Where one text stands to another.
#[derive(Debug, Clone, Copy, PartialEq, Eq, Structural)]
pub enum Place {
    Before,
    Same,
    After,
}

/// Where `a` stands to `b` in dictionary order.
pub fn place(a: &str, b: &str) -> (out: Place)
    ensures
        out == Place::Before <==> before(a@, b@),
        out == Place::Same <==> a@ == b@,
        out == Place::After <==> before(b@, a@),
{
    let left = chars_of(a);
    let right = chars_of(b);
    let mut i: usize = 0;
    proof {
        before_is_irreflexive(a@);
        before_is_total(a@, b@);
        if before(a@, b@) && before(b@, a@) {
            before_is_transitive(a@, b@, a@);
        }
        assert(a@ == a@.skip(0) && b@ == b@.skip(0));
    }
    while i < left.len() && i < right.len()
        invariant
            left@ == a@,
            right@ == b@,
            i <= left.len(),
            i <= right.len(),
            before(a@, b@) == before(a@.skip(i as int), b@.skip(i as int)),
            before(b@, a@) == before(b@.skip(i as int), a@.skip(i as int)),
            !before(a@, a@),
            before(a@, b@) || before(b@, a@) || a@ == b@,
            !(before(a@, b@) && before(b@, a@)),
        decreases left.len() - i,
    {
        if left[i] < right[i] {
            return Place::Before;
        }
        if right[i] < left[i] {
            return Place::After;
        }
        proof {
            assert(a@.skip(i as int).skip(1) =~= a@.skip(i + 1));
            assert(b@.skip(i as int).skip(1) =~= b@.skip(i + 1));
        }
        i += 1;
    }
    if i < right.len() {
        Place::Before
    } else if i < left.len() {
        Place::After
    } else {
        Place::Same
    }
}

// --- laws ----------------------------------------------------------------------

/// What digits come to, read one after the other.
pub open spec fn figures(s: Seq<char>) -> int
    decreases s.len(),
{
    if s.len() == 0 {
        0
    } else {
        figures(s.drop_last()) * 10 + (s.last() as int - '0' as int)
    }
}

/// Nothing but digits.
pub open spec fn only_figures(s: Seq<char>) -> bool {
    forall|i: int| 0 <= i < s.len() ==> '0' <= #[trigger] s[i] <= '9'
}

/// A number is written in digits that come to it, without a zero in front.
pub proof fn a_number_is_written_in_its_figures(n: nat)
    ensures
        figures(decimal(n)) == n,
        only_figures(decimal(n)),
        decimal(n).len() > 0,
        decimal(n).len() > 1 ==> decimal(n)[0] != '0',
        n > 0 ==> decimal(n)[0] != '0',
    decreases n,
{
    if n < 10 {
        let s = decimal(n);
        assert(s.drop_last() =~= Seq::empty());
        assert(figures(s.drop_last()) == 0);
    } else {
        a_number_is_written_in_its_figures(n / 10);
        let s = decimal(n);
        assert(s.drop_last() =~= decimal(n / 10));
        assert forall|i: int| 0 <= i < s.len() implies '0' <= #[trigger] s[i] <= '9' by {
            if i < s.len() - 1 {
                assert(s[i] == decimal(n / 10)[i]);
            }
        }
        assert(s[0] == decimal(n / 10)[0]);
    }
}

/// A number below zero has a minus sign before what its magnitude comes to.
pub proof fn a_minus_sign_stands_before_what_is_below_zero(n: int)
    ensures
        n >= 0 ==> figures(signed(n)) == n && only_figures(signed(n)),
        n < 0 ==> signed(n)[0] == '-' && figures(signed(n).skip(1)) == -n && only_figures(
            signed(n).skip(1),
        ),
{
    if n < 0 {
        a_number_is_written_in_its_figures((-n) as nat);
        assert(signed(n).skip(1) =~= decimal((-n) as nat));
    } else {
        a_number_is_written_in_its_figures(n as nat);
    }
}

/// A rounded quotient lies no more than half from what was divided, and is even
/// where two lie equally near.
pub proof fn rounding_goes_to_the_nearest(num: nat, den: nat)
    requires
        den > 0,
    ensures
        -(den as int) <= 2 * (half_even(num, den) * den - num) <= den,
        2 * (half_even(num, den) * den - num) == den || 2 * (num - half_even(num, den) * den)
            == den ==> half_even(num, den) % 2 == 0,
{
    let whole = num / den;
    let rest = num % den;
    assert(num == whole * den + rest && rest < den) by (nonlinear_arith)
        requires
            whole == num / den,
            rest == num % den,
            den > 0,
    ;
    assert((whole + 1) * den == whole * den + den) by (nonlinear_arith);
}

/// A rounded quotient does not fall when more is divided.
pub proof fn rounding_keeps_order(less: nat, more: nat, den: nat)
    requires
        den > 0,
        less <= more,
    ensures
        half_even(less, den) <= half_even(more, den),
{
    rounding_goes_to_the_nearest(less, den);
    rounding_goes_to_the_nearest(more, den);
    let a = half_even(less, den);
    let b = half_even(more, den);
    if a > b {
        assert(a * den >= b * den + den) by (nonlinear_arith)
            requires
                a >= b + 1,
        ;
        assert(less == more);
    }
}

/// A quantity in thousandths is written as the whole number nearest to it, with a
/// minus sign exactly when it is below zero.
pub proof fn thousandths_are_written_as_the_nearest_whole(milli: int)
    ensures
        milli >= 0 ==> only_figures(whole_of_milli(milli)) && -500 <= figures(
            whole_of_milli(milli),
        ) * 1000 - milli <= 500,
        milli < 0 ==> whole_of_milli(milli)[0] == '-' && only_figures(
            whole_of_milli(milli).skip(1),
        ) && -500 <= figures(whole_of_milli(milli).skip(1)) * 1000 + milli <= 500,
{
    let magnitude = if milli < 0 {
        (-milli) as nat
    } else {
        milli as nat
    };
    rounding_goes_to_the_nearest(magnitude, 1000);
    a_number_is_written_in_its_figures(half_even(magnitude, 1000));
    if milli < 0 {
        assert(whole_of_milli(milli).skip(1) =~= decimal(half_even(magnitude, 1000)));
    }
}

/// What one more digit behind others comes to.
proof fn one_more_figure(s: Seq<char>, c: char)
    ensures
        figures(s.push(c)) == figures(s) * 10 + (c as int - '0' as int),
{
    assert(s.push(c).drop_last() =~= s);
}

/// Tenths are written with a point before the last digit; without the point, the
/// digits come to them.
pub proof fn tenths_have_one_decimal(tenths: nat)
    ensures
        ({
            let s = with_tenths(tenths);
            let at = s.len() - 2;
            &&& at >= 1
            &&& s[at] == '.'
            &&& figures(s.take(at) + s.skip(at + 1)) == tenths
            &&& only_figures(s.take(at) + s.skip(at + 1))
        }),
{
    let s = with_tenths(tenths);
    let at = s.len() - 2;
    let whole = decimal(tenths / 10);
    let last = digit((tenths % 10) as int);
    a_number_is_written_in_its_figures(tenths / 10);
    assert(s.take(at) + s.skip(at + 1) =~= whole.push(last));
    one_more_figure(whole, last);
}

/// Hundredths are written with a point before the last two digits; without the
/// point, the digits come to them.
pub proof fn hundredths_have_two_decimals(hundredths: nat)
    ensures
        ({
            let s = with_hundredths(hundredths);
            let at = s.len() - 3;
            &&& at >= 1
            &&& s[at] == '.'
            &&& figures(s.take(at) + s.skip(at + 1)) == hundredths
            &&& only_figures(s.take(at) + s.skip(at + 1))
        }),
{
    let s = with_hundredths(hundredths);
    let at = s.len() - 3;
    let whole = decimal(hundredths / 100);
    let tens = digit((hundredths / 10 % 10) as int);
    let ones = digit((hundredths % 10) as int);
    a_number_is_written_in_its_figures(hundredths / 100);
    assert(s.take(at) + s.skip(at + 1) =~= whole.push(tens).push(ones));
    one_more_figure(whole, tens);
    one_more_figure(whole.push(tens), ones);
}

/// One more digit behind digits.
proof fn one_more_is_a_figure(s: Seq<char>, d: nat)
    requires
        only_figures(s),
        d < 10,
    ensures
        only_figures(s.push(digit(d as int))),
        figures(s.push(digit(d as int))) == figures(s) * 10 + d,
{
    one_more_figure(s, digit(d as int));
}

/// A fraction behind a whole number continues its digits.
proof fn a_fraction_continues_the_figures(whole: Seq<char>, rest: nat)
    requires
        only_figures(whole),
        rest < 1000,
    ensures
        ({
            let digits = whole + fraction(rest);
            let scale = if rest % 100 == 0 {
                100int
            } else if rest % 10 == 0 {
                10
            } else {
                1
            };
            &&& only_figures(digits)
            &&& figures(digits) * scale == figures(whole) * 1000 + rest
        }),
{
    let first = rest / 100;
    let second = rest / 10 % 10;
    let third = rest % 10;
    let one = whole.push(digit(first as int));
    let two = one.push(digit(second as int));
    let three = two.push(digit(third as int));
    one_more_is_a_figure(whole, first);
    one_more_is_a_figure(one, second);
    one_more_is_a_figure(two, third);
    if rest % 100 == 0 {
        assert(whole + fraction(rest) =~= one);
    } else if rest % 10 == 0 {
        assert(whole + fraction(rest) =~= two);
    } else {
        assert(whole + fraction(rest) =~= three);
    }
}

/// A quantity in thousandths is written in full: with as many decimals as it needs,
/// one at least, and a minus sign when it is below zero. Without the sign and the
/// point, the digits come to its magnitude.
pub proof fn thousandths_are_written_in_full(milli: int)
    ensures
        ({
            let magnitude = if milli < 0 {
                -milli
            } else {
                milli
            };
            let s = if milli < 0 {
                in_full(milli).skip(1)
            } else {
                in_full(milli)
            };
            let places = if magnitude % 100 == 0 {
                1int
            } else if magnitude % 10 == 0 {
                2
            } else {
                3
            };
            let scale = if places == 1 {
                100int
            } else if places == 2 {
                10
            } else {
                1
            };
            let at = s.len() - places - 1;
            &&& milli < 0 ==> in_full(milli)[0] == '-'
            &&& at >= 1
            &&& s[at] == '.'
            &&& figures(s.take(at) + s.skip(at + 1)) * scale == magnitude
            &&& only_figures(s.take(at) + s.skip(at + 1))
        }),
{
    let magnitude: nat = if milli < 0 {
        (-milli) as nat
    } else {
        milli as nat
    };
    let s = if milli < 0 {
        in_full(milli).skip(1)
    } else {
        in_full(milli)
    };
    let whole = decimal(magnitude / 1000);
    let rest = magnitude % 1000;
    assert(s =~= whole + seq!['.'] + fraction(rest));
    a_number_is_written_in_its_figures(magnitude / 1000);
    let at = whole.len() as int;
    a_fraction_continues_the_figures(whole, rest);
    assert(rest % 100 == magnitude % 100 && rest % 10 == magnitude % 10);
    assert(s.take(at) + s.skip(at + 1) =~= whole + fraction(rest));
}

/// What is trimmed stands within the whole with nothing but space around it, and has
/// none at its ends.
pub proof fn trimming_takes_the_space_at_both_ends(s: Seq<char>) -> (range: (int, int))
    ensures
        0 <= range.0 <= range.1 <= s.len(),
        trimmed(s) == s.subrange(range.0, range.1),
        forall|i: int| 0 <= i < range.0 ==> is_white(#[trigger] s[i]),
        forall|i: int| range.1 <= i < s.len() ==> is_white(#[trigger] s[i]),
        range.0 < range.1 ==> !is_white(s[range.0]) && !is_white(s[range.1 - 1]),
        range.0 == range.1 ==> is_blank(s),
    decreases s.len(),
{
    if s.len() > 0 && is_white(s[0]) {
        let (from, to) = trimming_takes_the_space_at_both_ends(s.skip(1));
        assert(s.skip(1).subrange(from, to) =~= s.subrange(from + 1, to + 1));
        assert forall|i: int| 0 <= i < from + 1 implies is_white(#[trigger] s[i]) by {
            if i > 0 {
                assert(s[i] == s.skip(1)[i - 1]);
            }
        }
        assert forall|i: int| to + 1 <= i < s.len() implies is_white(#[trigger] s[i]) by {
            assert(s[i] == s.skip(1)[i - 1]);
        }
        assert(from < to ==> s[from + 1] == s.skip(1)[from] && s[to] == s.skip(1)[to - 1]);
        (from + 1, to + 1)
    } else if s.len() > 0 && is_white(s.last()) {
        let (from, to) = trimming_takes_the_space_at_both_ends(s.drop_last());
        assert(s.drop_last().subrange(from, to) =~= s.subrange(from, to));
        assert forall|i: int| 0 <= i < from implies is_white(#[trigger] s[i]) by {
            assert(s[i] == s.drop_last()[i]);
        }
        assert forall|i: int| to <= i < s.len() implies is_white(#[trigger] s[i]) by {
            if i < s.len() - 1 {
                assert(s[i] == s.drop_last()[i]);
            }
        }
        assert(from < to ==> s[from] == s.drop_last()[from] && s[to - 1] == s.drop_last()[to - 1]);
        (from, to)
    } else {
        assert(s.subrange(0, s.len() as int) =~= s);
        (0, s.len() as int)
    }
}

/// Case is no matter, nor is space at the ends: capital letters become small ones of
/// the same name, and all else stays.
pub proof fn letters_become_small(s: Seq<char>, i: int)
    requires
        0 <= i < trimmed(s).len(),
    ensures
        normal(s).len() == trimmed(s).len(),
        'A' <= trimmed(s)[i] <= 'Z' ==> 'a' <= normal(s)[i] <= 'z' && normal(s)[i] as int
            - 'a' as int == trimmed(s)[i] as int - 'A' as int,
        !('A' <= trimmed(s)[i] <= 'Z') ==> normal(s)[i] == trimmed(s)[i],
{
}

/// Letters, digits and signs are no space; a blank, a tab and the ends of lines are.
pub proof fn what_is_printed_is_no_space(c: char)
    ensures
        '!' <= c <= '~' ==> !is_white(c),
        is_white(' ') && is_white('\t') && is_white('\n') && is_white('\r'),
{
}

/// Each part of what is joined stands in it, with the separator between it and the
/// one before.
pub proof fn joining_puts_the_separator_between(parts: Seq<Seq<char>>, part: Seq<char>,
    separator: Seq<char>)
    ensures
        joined(seq![part], separator) == part,
        parts.len() > 0 ==> joined(parts.push(part), separator) == joined(parts, separator)
            + separator + part,
{
    assert(parts.push(part).drop_last() =~= parts);
}

/// Where a character is looked for, it is found at its first place.
proof fn position_is_first(s: Seq<char>, c: char, from: int)
    requires
        0 <= from <= s.len(),
    ensures
        from <= position(s, c, from) <= s.len(),
        position(s, c, from) < s.len() ==> s[position(s, c, from)] == c,
        forall|i: int| from <= i < position(s, c, from) ==> s[i] != c,
    decreases s.len() - from,
{
    if from < s.len() && s[from] != c {
        position_is_first(s, c, from + 1);
    }
}

/// Joining from the front.
proof fn joined_from_the_front(first: Seq<char>, rest: Seq<Seq<char>>, separator: Seq<char>)
    requires
        rest.len() > 0,
    ensures
        joined(seq![first] + rest, separator) == first + separator + joined(rest, separator),
    decreases rest.len(),
{
    let whole = seq![first] + rest;
    if rest.len() == 1 {
        assert(whole.drop_last() =~= seq![first]);
        assert(joined(whole.drop_last(), separator) == first);
        assert(whole.last() == rest[0]);
    } else {
        joined_from_the_front(first, rest.drop_last(), separator);
        assert(whole.drop_last() =~= seq![first] + rest.drop_last());
        assert(whole.last() == rest.last());
        assert(first + separator + joined(rest.drop_last(), separator) + separator + rest.last()
            =~= first + separator + (joined(rest.drop_last(), separator) + separator
            + rest.last()));
    }
}

/// What is cut apart at a character is the pieces between its places: put together
/// with it they are the whole again, and it stands in none of them.
pub proof fn cutting_leaves_the_pieces_between(s: Seq<char>, c: char)
    ensures
        joined(split(s, c), seq![c]) == s,
        split(s, c).len() > 0,
        forall|i: int, k: int|
            0 <= i < split(s, c).len() && 0 <= k < split(s, c)[i].len() ==> (
            #[trigger] split(s, c)[i][k]) != c,
    decreases s.len(),
{
    let at = position(s, c, 0);
    position_is_first(s, c, 0);
    if at < s.len() {
        let rest = s.skip(at + 1);
        cutting_leaves_the_pieces_between(rest, c);
        joined_from_the_front(s.take(at), split(rest, c), seq![c]);
        assert(s.take(at) + seq![c] + rest =~= s);
        assert forall|i: int, k: int|
            0 <= i < split(s, c).len() && 0 <= k < split(s, c)[i].len() implies (
        #[trigger] split(s, c)[i][k]) != c by {
            if i > 0 {
                assert(split(s, c)[i] == split(rest, c)[i - 1]);
            }
        }
    }
}

/// A line ends before its break, and before the carriage return that goes with it. One
/// that no break ends is taken as it is.
pub proof fn a_line_ends_before_its_break(line: Seq<char>)
    requires
        is_one_line(line),
    ensures
        lines(line + "\n"@) == seq![line],
        lines(line + "\r\n"@) == seq![line],
        lines(line) == seq![line],
        lines(line + "\r"@) == seq![line + "\r"@],
{
    reveal_strlit("\n");
    reveal_strlit("\r\n");
    reveal_strlit("\r");
    let n = line.len() as int;
    let plain = line + "\n"@;
    line_end_found(plain, 0, n);
    assert(plain.subrange(0, n) =~= line);
    assert(lines_from(plain, n + 1) =~= Seq::empty());
    assert(lines(plain) =~= seq![line]);
    let returned = line + "\r\n"@;
    line_end_found(returned, 0, n + 1);
    assert(returned.subrange(0, n + 1).drop_last() =~= line);
    assert(lines_from(returned, n + 2) =~= Seq::empty());
    assert(lines(returned) =~= seq![line]);
    line_end_found(line, 0, n);
    assert(line.subrange(0, n) =~= line);
    let open = line + "\r"@;
    line_end_found(open, 0, n + 1);
    assert(open.subrange(0, n + 1) =~= open);
}

/// One text comes before another exactly when it is smaller where the two first part,
/// or when it is all of the other's beginning.
pub proof fn order_goes_by_the_first_difference(a: Seq<char>, b: Seq<char>, i: int)
    requires
        0 <= i <= a.len(),
        i <= b.len(),
        a.take(i) == b.take(i),
    ensures
        i < a.len() && i < b.len() && a[i] < b[i] ==> before(a, b),
        i < a.len() && i < b.len() && a[i] > b[i] ==> !before(a, b),
        i == a.len() ==> (before(a, b) <==> i < b.len()),
        i == b.len() ==> !before(a, b),
    decreases i,
{
    if i > 0 {
        assert(a[0] == a.take(i)[0] && b[0] == b.take(i)[0]);
        assert(a.skip(1).take(i - 1) =~= a.take(i).skip(1));
        assert(b.skip(1).take(i - 1) =~= b.take(i).skip(1));
        order_goes_by_the_first_difference(a.skip(1), b.skip(1), i - 1);
    }
}

/// What was joined is cut apart again, where the character that joins stands in none of
/// the parts.
pub proof fn what_was_joined_is_cut_apart(parts: Seq<Seq<char>>, c: char)
    requires
        parts.len() > 0,
        forall|i: int, k: int|
            0 <= i < parts.len() && 0 <= k < parts[i].len() ==> (#[trigger] parts[i][k]) != c,
    ensures
        split(joined(parts, seq![c]), c) == parts,
    decreases parts.len(),
{
    let whole = joined(parts, seq![c]);
    let first = parts[0];
    assert forall|k: int| 0 <= k < first.len() implies first[k] != c by {
        assert(parts[0][k] != c);
    }
    if parts.len() == 1 {
        position_found(whole, c, 0, whole.len() as int);
        assert(split(whole, c) =~= parts);
    } else {
        let rest = parts.skip(1);
        assert(parts =~= seq![first] + rest);
        joined_from_the_front(first, rest, seq![c]);
        assert forall|i: int, k: int|
            0 <= i < rest.len() && 0 <= k < rest[i].len() implies (#[trigger] rest[i][k]) != c by {
            assert(parts[i + 1][k] != c);
        }
        what_was_joined_is_cut_apart(rest, c);
        let at = first.len() as int;
        assert(whole[at] == c);
        position_found(whole, c, 0, at);
        assert(whole.take(at) =~= first);
        assert(whole.skip(at + 1) =~= joined(rest, seq![c]));
        assert(split(whole, c) =~= parts);
    }
}

} // verus!
