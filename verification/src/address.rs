//! Network addresses, as they are written in a configuration file.

use vstd::arithmetic::div_mod::lemma_small_mod;
use vstd::prelude::*;

use crate::number::{digits_value, is_digits, parse_u32};
use crate::text;
use crate::text::{chars_of, decimal, joined, piece, split, split_text, views};

verus! {

/// Where a server listens.
#[derive(Debug, Clone, Copy, PartialEq, Eq, Structural)]
pub enum IpAddress {
    V4(u32),
    V6(u128),
}

// --- model ---------------------------------------------------------------------

/// One to three digits without a leading zero, up to 255.
pub open spec fn octet(s: Seq<char>) -> Option<int> {
    if is_digits(s) && s.len() <= 3 && (s.len() > 1 ==> s[0] != '0') && digits_value(s) <= 255 {
        Some(digits_value(s) as int)
    } else {
        None
    }
}

/// Four octets with dots between them.
pub open spec fn v4(s: Seq<char>) -> Option<int> {
    let parts = split(s, '.');
    if parts.len() == 4 && octet(parts[0]) is Some && octet(parts[1]) is Some && octet(
        parts[2],
    ) is Some && octet(parts[3]) is Some {
        Some(
            ((octet(parts[0])->0 * 256 + octet(parts[1])->0) * 256 + octet(parts[2])->0) * 256
                + octet(parts[3])->0,
        )
    } else {
        None
    }
}

/// What a hexadecimal digit is worth.
pub open spec fn hex(c: char) -> Option<int> {
    if '0' <= c <= '9' {
        Some(c as int - 48)
    } else if 'a' <= c <= 'f' {
        Some(c as int - 87)
    } else if 'A' <= c <= 'F' {
        Some(c as int - 55)
    } else {
        None
    }
}

/// A run of hexadecimal digits.
pub open spec fn hex_value(s: Seq<char>) -> Option<int>
    decreases s.len(),
{
    if s.len() == 0 {
        Some(0)
    } else {
        match (hex_value(s.drop_last()), hex(s.last())) {
            (Some(high), Some(low)) => Some(high * 16 + low),
            _ => None,
        }
    }
}

/// One to four hexadecimal digits.
pub open spec fn group(s: Seq<char>) -> Option<int> {
    if 1 <= s.len() <= 4 {
        hex_value(s)
    } else {
        None
    }
}

/// The sixteen-bit groups that the first `n` of some fields write.
pub open spec fn groups(fields: Seq<Seq<char>>, n: int) -> Option<Seq<int>>
    decreases n,
{
    if n <= 0 {
        Some(Seq::empty())
    } else {
        match (groups(fields, n - 1), group(fields[n - 1])) {
            (Some(front), Some(last)) => Some(front.push(last)),
            _ => None,
        }
    }
}

/// Fields with colons between them. The last may be a dotted address, which
/// stands for two groups.
pub open spec fn run_of_groups(s: Seq<char>, dotted: bool) -> Option<Seq<int>> {
    let fields = split(s, ':');
    let n = fields.len() as int;
    if s.len() == 0 {
        Some(Seq::empty())
    } else if dotted && v4(fields[n - 1]) is Some {
        match groups(fields, n - 1) {
            Some(front) => Some(
                front + seq![v4(fields[n - 1])->0 / 65536, v4(fields[n - 1])->0 % 65536],
            ),
            None => None,
        }
    } else {
        groups(fields, n)
    }
}

/// Where a double colon first stands, or the end.
pub open spec fn double_colon(s: Seq<char>, from: int) -> int
    decreases s.len() - from,
{
    if from + 1 >= s.len() {
        s.len() as int
    } else if s[from] == ':' && s[from + 1] == ':' {
        from
    } else {
        double_colon(s, from + 1)
    }
}

/// What some groups are worth.
pub open spec fn groups_value(groups: Seq<int>) -> int
    decreases groups.len(),
{
    if groups.len() == 0 {
        0
    } else {
        groups_value(groups.drop_last()) * 65536 + groups.last()
    }
}

/// Eight groups, of which a double colon may leave out a run of zeros.
pub open spec fn v6(s: Seq<char>) -> Option<int> {
    let at = double_colon(s, 0);
    if at >= s.len() {
        match run_of_groups(s, true) {
            Some(all) if all.len() == 8 => Some(groups_value(all)),
            _ => None,
        }
    } else {
        match (run_of_groups(s.take(at), false), run_of_groups(s.skip(at + 2), true)) {
            (Some(head), Some(tail)) if head.len() + tail.len() <= 7 => Some(
                groups_value(
                    head + Seq::new((8 - head.len() - tail.len()) as nat, |i: int| 0int) + tail,
                ),
            ),
            _ => None,
        }
    }
}

/// The address that a text writes.
pub open spec fn address_of(s: Seq<char>) -> Option<IpAddress> {
    match v4(s) {
        Some(v) => Some(IpAddress::V4(v as u32)),
        None => match v6(s) {
            Some(v) => Some(IpAddress::V6(v as u128)),
            None => None,
        },
    }
}

// --- implementation ------------------------------------------------------------

fn read_octet(s: &String) -> (out: Option<u32>)
    ensures
        out matches Some(v) ==> octet(s@) == Some(v as int) && v <= 255,
        out is None ==> octet(s@) is None,
{
    let chars = chars_of(s.as_str());
    if chars.len() == 0 || chars.len() > 3 {
        return None;
    }
    if chars.len() > 1 && chars[0] == '0' {
        return None;
    }
    if chars[0] == '+' {
        assert(!crate::number::is_digit(s@[0]));
        return None;
    }
    if chars[0] == '-' {
        assert(!crate::number::is_digit(s@[0]));
    }
    match parse_u32(s.as_str()) {
        Some(v) => if v <= 255 {
            Some(v)
        } else {
            None
        },
        None => None,
    }
}

fn read_v4(text: &str) -> (out: Option<u32>)
    ensures
        out matches Some(v) ==> v4(text@) == Some(v as int),
        out is None ==> v4(text@) is None,
{
    let parts = split_text(text, '.');
    assert(views(parts@).len() == parts@.len());
    if parts.len() != 4 {
        return None;
    }
    proof {
        assert(views(parts@)[0] == parts@[0]@);
        assert(views(parts@)[1] == parts@[1]@);
        assert(views(parts@)[2] == parts@[2]@);
        assert(views(parts@)[3] == parts@[3]@);
    }
    match (read_octet(&parts[0]), read_octet(&parts[1]), read_octet(&parts[2]), read_octet(&parts[3])) {
        (Some(a), Some(b), Some(c), Some(d)) => Some(((a * 256 + b) * 256 + c) * 256 + d),
        _ => None,
    }
}

fn read_group(s: &String) -> (out: Option<u32>)
    ensures
        out matches Some(v) ==> group(s@) == Some(v as int) && v <= 65535,
        out is None ==> group(s@) is None,
{
    let chars = chars_of(s.as_str());
    if chars.len() == 0 || chars.len() > 4 {
        return None;
    }
    let mut value: u32 = 0;
    let mut bound: Ghost<int> = Ghost(1);
    for i in 0..chars.len()
        invariant
            chars@ == s@,
            chars@.len() <= 4,
            hex_value(s@.take(i as int)) == Some(value as int),
            value < bound@,
            bound@ == if i == 0 {
                1int
            } else if i == 1 {
                16
            } else if i == 2 {
                256
            } else if i == 3 {
                4096
            } else {
                65536
            },
    {
        let c = chars[i];
        proof {
            assert(s@.take(i + 1).drop_last() =~= s@.take(i as int));
            assert(s@.take(i + 1).last() == c);
        }
        let low: u32 = if '0' <= c && c <= '9' {
            c as u32 - 48
        } else if 'a' <= c && c <= 'f' {
            c as u32 - 87
        } else if 'A' <= c && c <= 'F' {
            c as u32 - 55
        } else {
            proof {
                hex_prefix(s@, i + 1);
            }
            return None;
        };
        value = value * 16 + low;
        bound = Ghost(bound@ * 16);
    }
    assert(s@.take(chars@.len() as int) =~= s@);
    Some(value)
}

/// A run with a part that is no hexadecimal is none itself.
proof fn hex_prefix(s: Seq<char>, n: int)
    requires
        0 <= n <= s.len(),
        hex_value(s.take(n)) is None,
    ensures
        hex_value(s) is None,
    decreases s.len() - n,
{
    if n == s.len() {
        assert(s.take(n) =~= s);
    } else {
        assert(s.take(n + 1).drop_last() =~= s.take(n));
        hex_prefix(s, n + 1);
    }
}

/// Fields with one that is no group are no run.
proof fn groups_prefix(fields: Seq<Seq<char>>, k: int, n: int)
    requires
        0 <= k <= n,
        groups(fields, k) is None,
    ensures
        groups(fields, n) is None,
    decreases n - k,
{
    if k < n {
        groups_prefix(fields, k + 1, n);
    }
}

spec fn ints(values: Seq<u32>) -> Seq<int> {
    values.map_values(|v: u32| v as int)
}

spec fn small(values: Seq<u32>) -> bool {
    forall|i: int| 0 <= i < values.len() ==> #[trigger] values[i] <= 65535
}

fn read_groups(fields: &Vec<String>, n: usize) -> (out: Option<Vec<u32>>)
    requires
        n <= fields.len(),
    ensures
        out matches Some(all) ==> groups(views(fields@), n as int) == Some(ints(all@)) && small(
            all@,
        ),
        out is None ==> groups(views(fields@), n as int) is None,
{
    let mut all: Vec<u32> = Vec::new();
    assert(ints(all@) =~= Seq::<int>::empty());
    for i in 0..n
        invariant
            n <= fields.len(),
            groups(views(fields@), i as int) == Some(ints(all@)),
            small(all@),
    {
        assert(views(fields@)[i as int] == fields@[i as int]@);
        match read_group(&fields[i]) {
            Some(v) => {
                let ghost so_far = all@;
                all.push(v);
                assert(ints(all@) =~= ints(so_far).push(v as int));
            },
            None => {
                proof {
                    groups_prefix(views(fields@), i + 1, n as int);
                }
                return None;
            },
        }
    }
    Some(all)
}

fn read_run(text: &str, dotted: bool) -> (out: Option<Vec<u32>>)
    ensures
        out matches Some(all) ==> run_of_groups(text@, dotted) == Some(ints(all@)) && small(all@),
        out is None ==> run_of_groups(text@, dotted) is None,
{
    if text.is_empty() {
        let none: Vec<u32> = Vec::new();
        assert(ints(none@) =~= Seq::<int>::empty());
        return Some(none);
    }
    let fields = split_text(text, ':');
    let n = fields.len();
    assert(views(fields@).len() == n);
    proof {
        split_is_not_empty(text@, ':');
    }
    assert(views(fields@)[n - 1] == fields@[n - 1]@);
    if dotted {
        if let Some(v) = read_v4(fields[n - 1].as_str()) {
            match read_groups(&fields, n - 1) {
                Some(front) => {
                    let mut all = front;
                    let ghost so_far = all@;
                    all.push(v / 65536);
                    all.push(v % 65536);
                    assert(ints(all@) =~= ints(so_far) + seq![
                        (v / 65536) as int,
                        (v % 65536) as int,
                    ]);
                    return Some(all);
                },
                None => {
                    return None;
                },
            }
        }
    }
    read_groups(&fields, n)
}

proof fn split_is_not_empty(s: Seq<char>, c: char)
    ensures
        split(s, c).len() > 0,
{
}

proof fn double_colon_found(s: Seq<char>, from: int, at: int)
    requires
        0 <= from <= at,
        at == s.len() || (at + 1 < s.len() && s[at] == ':' && s[at + 1] == ':'),
        forall|i: int|
            #![trigger s[i]]
            from <= i < at && i + 1 < s.len() ==> !(s[i] == ':' && s[i + 1] == ':'),
    ensures
        double_colon(s, from) == at,
    decreases at - from,
{
    if from < at && from + 1 < s.len() {
        assert(!(s[from] == ':' && s[from + 1] == ':'));
        double_colon_found(s, from + 1, at);
    }
}

fn value_of(all: &Vec<u32>) -> (out: u128)
    requires
        all@.len() <= 8,
        small(all@),
    ensures
        out == groups_value(ints(all@)),
{
    let mut value: u128 = 0;
    let mut room: u128 = 1;
    for i in 0..all.len()
        invariant
            all@.len() <= 8,
            small(all@),
            value == groups_value(ints(all@).take(i as int)),
            value < room || i == 8,
            room == if i == 0 {
                1int
            } else if i == 1 {
                0x1_0000
            } else if i == 2 {
                0x1_0000_0000
            } else if i == 3 {
                0x1_0000_0000_0000
            } else if i == 4 {
                0x1_0000_0000_0000_0000
            } else if i == 5 {
                0x1_0000_0000_0000_0000_0000
            } else if i == 6 {
                0x1_0000_0000_0000_0000_0000_0000
            } else {
                0x1_0000_0000_0000_0000_0000_0000_0000
            },
    {
        let v: u32 = all[i];
        proof {
            let taken = ints(all@).take(i + 1);
            assert(taken.drop_last() =~= ints(all@).take(i as int));
            assert(taken.last() == v);
        }
        value = value * 65536 + v as u128;
        if i < 7 {
            room = if i < 6 {
                room * 65536
            } else {
                0x1_0000_0000_0000_0000_0000_0000_0000
            };
        }
    }
    assert(ints(all@).take(all@.len() as int) =~= ints(all@));
    value
}

fn read_v6(text: &str) -> (out: Option<u128>)
    ensures
        out matches Some(v) ==> v6(text@) == Some(v as int),
        out is None ==> v6(text@) is None,
{
    let chars = chars_of(text);
    let n = chars.len();
    let mut at: usize = 0;
    while at < n && !(at < n - 1 && chars[at] == ':' && chars[at + 1] == ':')
        invariant
            at <= n == chars.len(),
            chars@ == text@,
            forall|i: int|
                #![trigger text@[i]]
                0 <= i < at && i + 1 < n ==> !(text@[i] == ':' && text@[i + 1] == ':'),
        decreases n - at,
    {
        at += 1;
    }
    proof {
        double_colon_found(text@, 0, at as int);
    }
    if at == n {
        match read_run(text, true) {
            Some(all) => if all.len() == 8 {
                Some(value_of(&all))
            } else {
                None
            },
            None => None,
        }
    } else {
        let left = piece(&chars, 0, at);
        let right = piece(&chars, at + 2, n);
        assert(left@ =~= text@.take(at as int));
        assert(right@ =~= text@.skip(at + 2));
        match (read_run(left.as_str(), false), read_run(right.as_str(), true)) {
            (Some(head), Some(tail)) => {
                if head.len() > 7 || tail.len() > 7 || head.len() + tail.len() > 7 {
                    return None;
                }
                let ghost heads = head@;
                let ghost gap = (8 - head@.len() - tail@.len()) as nat;
                let missing: usize = 8 - head.len() - tail.len();
                let mut all = head;
                let mut k: usize = 0;
                while k < missing
                    invariant
                        k <= missing == gap,
                        ints(all@) == ints(heads) + Seq::new(k as nat, |i: int| 0int),
                        small(all@),
                    decreases missing - k,
                {
                    let ghost so_far = all@;
                    all.push(0);
                    k += 1;
                    assert(ints(all@) =~= ints(so_far).push(0));
                    assert(Seq::new(k as nat, |i: int| 0int) =~= Seq::new(
                        (k - 1) as nat,
                        |i: int| 0int,
                    ).push(0));
                    assert(ints(all@) =~= ints(heads) + Seq::new(k as nat, |i: int| 0int));
                }
                let ghost padded = all@;
                let mut j: usize = 0;
                while j < tail.len()
                    invariant
                        j <= tail.len(),
                        all@ == padded + tail@.take(j as int),
                        small(all@),
                        small(tail@),
                    decreases tail.len() - j,
                {
                    all.push(tail[j]);
                    j += 1;
                    assert(all@ =~= padded + tail@.take(j as int));
                }
                assert(ints(all@) =~= ints(heads) + Seq::new(gap, |i: int| 0int) + ints(tail@));
                Some(value_of(&all))
            },
            _ => None,
        }
    }
}

/// The address that `text` writes, where it writes one.
pub fn parse(text: &str) -> (out: Option<IpAddress>)
    ensures
        out == address_of(text@),
{
    match read_v4(text) {
        Some(v) => Some(IpAddress::V4(v)),
        None => match read_v6(text) {
            Some(v) => Some(IpAddress::V6(v)),
            None => None,
        },
    }
}

// --- showing -------------------------------------------------------------------

/// A hexadecimal digit.
pub open spec fn hex_digit(n: int) -> char {
    if 0 <= n < 10 {
        (48 + n) as char
    } else {
        (87 + n) as char
    }
}

/// A number in hexadecimal digits, without leading zeros.
pub open spec fn hex_text(n: nat) -> Seq<char>
    decreases n,
{
    if n < 16 {
        seq![hex_digit(n as int)]
    } else {
        hex_text(n / 16).push(hex_digit((n % 16) as int))
    }
}

/// The last `n` groups of sixteen bits.
pub open spec fn groups_of(address: nat, n: nat) -> Seq<u16>
    decreases n,
{
    if n == 0 {
        Seq::empty()
    } else {
        groups_of(address / 65536, (n - 1) as nat).push((address % 65536) as u16)
    }
}

/// Groups in hexadecimal, with colons between them.
pub open spec fn groups_text(groups: Seq<u16>) -> Seq<char>
    decreases groups.len(),
{
    if groups.len() == 0 {
        Seq::empty()
    } else if groups.len() == 1 {
        hex_text(groups[0] as nat)
    } else {
        groups_text(groups.drop_last()) + seq![':'] + hex_text(groups.last() as nat)
    }
}

/// How many groups are zero from `from` on, without a gap.
pub open spec fn zeros_from(groups: Seq<u16>, from: int) -> nat
    decreases groups.len() - from,
{
    if from >= groups.len() || groups[from] != 0 {
        0
    } else {
        1 + zeros_from(groups, from + 1)
    }
}

/// Where the longest run of zeros begins, among the first `n` groups: the first
/// one of several.
pub open spec fn longest_run(groups: Seq<u16>, n: nat) -> int
    decreases n,
{
    if n <= 1 {
        0
    } else {
        let before = longest_run(groups, (n - 1) as nat);
        if zeros_from(groups, n - 1) > zeros_from(groups, before) {
            n - 1
        } else {
            before
        }
    }
}

/// Eight groups as they are shown: the longest run of two or more zeros is left
/// out.
pub open spec fn compressed(groups: Seq<u16>) -> Seq<char> {
    let start = longest_run(groups, groups.len());
    let end = start + zeros_from(groups, start);
    if end - start > 1 {
        groups_text(groups.take(start)) + "::"@ + groups_text(groups.skip(end))
    } else {
        groups_text(groups)
    }
}

/// Four octets with dots between them.
pub open spec fn dotted(a: nat) -> Seq<char> {
    decimal(a / 0x100_0000) + seq!['.'] + decimal(a / 0x1_0000 % 256) + seq!['.'] + decimal(
        a / 256 % 256,
    ) + seq!['.'] + decimal(a % 256)
}

fn push_hex_digit(s: &mut String, n: u16)
    requires
        n < 16,
    ensures
        final(s)@ == old(s)@.push(hex_digit(n as int)),
{
    let c = if n < 10 {
        (48 + n as u8) as char
    } else {
        (87 + n as u8) as char
    };
    s.push(c);
}

fn push_hex(s: &mut String, n: u16)
    ensures
        final(s)@ == old(s)@ + hex_text(n as nat),
    decreases n,
{
    if n >= 16 {
        push_hex(s, n / 16);
    }
    push_hex_digit(s, n % 16);
    assert(s@ =~= old(s)@ + hex_text(n as nat));
}

fn split_groups(address: u128, n: u32) -> (out: Vec<u16>)
    ensures
        out@ == groups_of(address as nat, n as nat),
        out@.len() == n,
    decreases n,
{
    if n == 0 {
        return Vec::new();
    }
    let mut out = split_groups(address / 65536, n - 1);
    out.push((address % 65536) as u16);
    out
}

/// Appends the groups from `from` up to `to`.
fn push_groups(s: &mut String, groups: &Vec<u16>, from: usize, to: usize)
    requires
        from <= to <= groups.len(),
    ensures
        final(s)@ == old(s)@ + groups_text(groups@.subrange(from as int, to as int)),
    decreases to - from,
{
    let ghost shown = groups@.subrange(from as int, to as int);
    if to - from > 1 {
        push_groups(s, groups, from, to - 1);
        s.push(':');
        assert(shown.drop_last() =~= groups@.subrange(from as int, to - 1));
    }
    if to > from {
        push_hex(s, groups[to - 1]);
    }
    assert(s@ =~= old(s)@ + groups_text(shown));
}

fn count_zeros(groups: &Vec<u16>, from: usize) -> (out: usize)
    requires
        from <= groups.len(),
    ensures
        out == zeros_from(groups@, from as int),
        out <= groups.len() - from,
    decreases groups.len() - from,
{
    if from >= groups.len() || groups[from] != 0 {
        0
    } else {
        1 + count_zeros(groups, from + 1)
    }
}

fn find_longest_run(groups: &Vec<u16>, n: usize) -> (out: usize)
    requires
        n <= groups.len(),
    ensures
        out == longest_run(groups@, n as nat),
        out <= n,
    decreases n,
{
    if n <= 1 {
        return 0;
    }
    let before = find_longest_run(groups, n - 1);
    if count_zeros(groups, n - 1) > count_zeros(groups, before) {
        n - 1
    } else {
        before
    }
}

fn push_dotted(s: &mut String, a: u32)
    ensures
        final(s)@ == old(s)@ + dotted(a as nat),
{
    text::push_decimal(s, (a / 0x100_0000) as u128);
    s.push('.');
    text::push_decimal(s, (a / 0x1_0000 % 256) as u128);
    s.push('.');
    text::push_decimal(s, (a / 256 % 256) as u128);
    s.push('.');
    text::push_decimal(s, (a % 256) as u128);
    assert(s@ =~= old(s)@ + dotted(a as nat));
}

impl IpAddress {
    /// The address as it is shown: four octets with dots between them, or eight
    /// groups with colons between them, of which the longest run of zeros is left
    /// out. One of the old kind within the new is shown as what it is.
    pub open spec fn shown(self) -> Seq<char> {
        match self {
            IpAddress::V4(a) => dotted(a as nat),
            IpAddress::V6(a) => if a as nat / 0x1_0000_0000 == 0xffff {
                "::ffff:"@ + dotted(a as nat % 0x1_0000_0000)
            } else {
                compressed(groups_of(a as nat, 8))
            },
        }
    }

    /// Appends the address as it is shown.
    pub fn push_to(self, s: &mut String)
        ensures
            final(s)@ == old(s)@ + self.shown(),
    {
        match self {
            IpAddress::V4(a) => {
                push_dotted(s, a);
            },
            IpAddress::V6(a) => if a / 0x1_0000_0000 == 0xffff {
                s.append("::ffff:");
                push_dotted(s, (a % 0x1_0000_0000) as u32);
                assert(s@ =~= old(s)@ + self.shown());
            } else {
                let groups = split_groups(a, 8);
                let start = find_longest_run(&groups, 8);
                let end = start + count_zeros(&groups, start);
                if end - start > 1 {
                    push_groups(s, &groups, 0, start);
                    s.append("::");
                    push_groups(s, &groups, end, 8);
                    assert(groups@.subrange(0, start as int) =~= groups@.take(start as int));
                    assert(groups@.subrange(end as int, 8) =~= groups@.skip(end as int));
                } else {
                    push_groups(s, &groups, 0, 8);
                    assert(groups@.subrange(0, 8) =~= groups@);
                }
                assert(s@ =~= old(s)@ + self.shown());
            },
        }
    }
}

// --- laws ----------------------------------------------------------------------

/// The four parts of a dotted address.
spec fn octets(a: nat) -> Seq<Seq<char>> {
    seq![
        decimal(a / 0x100_0000),
        decimal(a / 0x1_0000 % 256),
        decimal(a / 256 % 256),
        decimal(a % 256),
    ]
}

/// A number up to 255 is written in up to three digits, and is read as an octet.
proof fn an_octet_is_read_back(n: nat)
    requires
        n <= 255,
    ensures
        octet(decimal(n)) == Some(n as int),
{
    crate::number::a_written_number_is_read_back(n);
    text::a_number_is_written_in_its_figures(n);
    if n >= 10 {
        assert(decimal(n) == decimal(n / 10).push(text::digit((n % 10) as int)));
        if n >= 100 {
            assert(decimal(n / 10) == decimal(n / 10 / 10).push(
                text::digit((n / 10 % 10) as int),
            ));
        }
    }
}

/// The digits of a number are no separators.
proof fn figures_are_no_separators(n: nat)
    ensures
        forall|k: int|
            0 <= k < decimal(n).len() ==> (#[trigger] decimal(n)[k]) != '.' && decimal(n)[k]
                != ':',
{
    text::a_number_is_written_in_its_figures(n);
}

/// A dotted address is its four parts, joined by dots.
proof fn a_dotted_address_is_its_octets(a: nat)
    requires
        a < 0x1_0000_0000,
    ensures
        dotted(a) == joined(octets(a), seq!['.']),
        split(dotted(a), '.') == octets(a),
        v4(dotted(a)) == Some(a as int),
        forall|k: int| 0 <= k < dotted(a).len() ==> (#[trigger] dotted(a)[k]) != ':',
        dotted(a).len() > 0,
{
    let parts = octets(a);
    let dot = seq!['.'];
    let three = parts.drop_last();
    let two = three.drop_last();
    let one = two.drop_last();
    assert(one =~= seq![parts[0]]);
    assert(joined(one, dot) == parts[0]);
    assert(joined(two, dot) == parts[0] + dot + parts[1]);
    assert(joined(three, dot) == joined(two, dot) + dot + parts[2]);
    assert(joined(parts, dot) == joined(three, dot) + dot + parts[3]);
    figures_are_no_separators(a / 0x100_0000);
    figures_are_no_separators(a / 0x1_0000 % 256);
    figures_are_no_separators(a / 256 % 256);
    figures_are_no_separators(a % 256);
    assert forall|i: int, k: int|
        0 <= i < parts.len() && 0 <= k < parts[i].len() implies (#[trigger] parts[i][k]) != '.' by {
        assert(i == 0 || i == 1 || i == 2 || i == 3);
    }
    text::what_was_joined_is_cut_apart(parts, '.');
    an_octet_is_read_back(a / 0x100_0000);
    an_octet_is_read_back(a / 0x1_0000 % 256);
    an_octet_is_read_back(a / 256 % 256);
    an_octet_is_read_back(a % 256);
    assert(((a / 0x100_0000 * 256 + a / 0x1_0000 % 256) * 256 + a / 256 % 256) * 256 + a % 256
        == a);
}

/// A hexadecimal number is written in digits that come to it, few enough for a group.
proof fn a_hexadecimal_number_is_read_back(n: nat)
    ensures
        hex_value(hex_text(n)) == Some(n as int),
        hex_text(n).len() > 0,
        n < 65536 ==> group(hex_text(n)) == Some(n as int),
        n < 16 ==> hex_text(n).len() == 1,
        n < 256 ==> hex_text(n).len() <= 2,
        n < 4096 ==> hex_text(n).len() <= 3,
        n < 65536 ==> hex_text(n).len() <= 4,
        forall|k: int|
            0 <= k < hex_text(n).len() ==> (#[trigger] hex_text(n)[k]) != ':' && hex_text(n)[k]
                != '.',
    decreases n,
{
    let s = hex_text(n);
    if n < 16 {
        assert(s.drop_last() =~= Seq::empty());
        assert(hex_value(s.drop_last()) == Some(0int));
        assert(s.last() == hex_digit(n as int));
    } else {
        a_hexadecimal_number_is_read_back(n / 16);
        let front = hex_text(n / 16);
        assert(s.drop_last() =~= front);
        assert(s.last() == hex_digit((n % 16) as int));
        assert forall|k: int| 0 <= k < s.len() implies (#[trigger] s[k]) != ':' && s[k] != '.' by {
            if k < front.len() {
                assert(s[k] == front[k]);
            }
        }
    }
}

/// The groups of an address, in hexadecimal.
spec fn hex_texts(groups: Seq<u16>) -> Seq<Seq<char>> {
    groups.map_values(|g: u16| hex_text(g as nat))
}

/// The groups of an address, as numbers.
spec fn as_ints(groups: Seq<u16>) -> Seq<int> {
    groups.map_values(|g: u16| g as int)
}

/// Groups are written as their texts, joined by colons.
proof fn groups_are_joined(groups: Seq<u16>)
    ensures
        groups_text(groups) == joined(hex_texts(groups), seq![':']),
    decreases groups.len(),
{
    let texts = hex_texts(groups);
    if groups.len() > 1 {
        groups_are_joined(groups.drop_last());
        assert(hex_texts(groups.drop_last()) =~= texts.drop_last());
        assert(texts.last() == hex_text(groups.last() as nat));
    }
}

/// The groups that some texts write are read back.
proof fn groups_are_read(all: Seq<u16>, n: int)
    requires
        0 <= n <= all.len(),
    ensures
        groups(hex_texts(all), n) == Some(as_ints(all).take(n)),
    decreases n,
{
    if n == 0 {
        assert(as_ints(all).take(0) =~= Seq::empty());
    } else {
        groups_are_read(all, n - 1);
        a_hexadecimal_number_is_read_back(all[n - 1] as nat);
        assert(hex_texts(all)[n - 1] == hex_text(all[n - 1] as nat));
        assert(as_ints(all).take(n) =~= as_ints(all).take(n - 1).push(all[n - 1] as int));
    }
}

/// Groups that are written are read back, whether or not a dotted address may end them.
proof fn groups_are_read_back(all: Seq<u16>, dotted: bool)
    ensures
        run_of_groups(groups_text(all), dotted) == Some(as_ints(all)),
{
    let whole = groups_text(all);
    groups_are_joined(all);
    if all.len() == 0 {
        assert(as_ints(all) =~= Seq::empty());
    } else {
        let texts = hex_texts(all);
        assert forall|i: int, k: int|
            0 <= i < texts.len() && 0 <= k < texts[i].len() implies (#[trigger] texts[i][k])
            != ':' by {
            a_hexadecimal_number_is_read_back(all[i] as nat);
        }
        text::what_was_joined_is_cut_apart(texts, ':');
        let last = all[all.len() - 1];
        a_hexadecimal_number_is_read_back(last as nat);
        no_dots_no_dotted_address(hex_text(last as nat));
        assert(texts[texts.len() - 1] == hex_text(last as nat));
        groups_are_read(all, all.len() as int);
        assert(as_ints(all).take(all.len() as int) =~= as_ints(all));
        groups_text_has_an_end(all);
    }
}

/// What has no dots is no dotted address.
proof fn no_dots_no_dotted_address(s: Seq<char>)
    requires
        forall|k: int| 0 <= k < s.len() ==> (#[trigger] s[k]) != '.',
    ensures
        v4(s) is None,
{
    text::position_found(s, '.', 0, s.len() as int);
    assert(split(s, '.') =~= seq![s]);
}

/// Groups that are written begin and end with a digit, have no two colons together and no
/// dots.
proof fn groups_text_has_an_end(all: Seq<u16>)
    ensures
        ({
            let s = groups_text(all);
            &&& all.len() > 0 ==> s.len() > 0 && s[0] != ':' && s[s.len() - 1] != ':'
            &&& all.len() == 0 ==> s.len() == 0
            &&& forall|k: int| 0 <= k < s.len() ==> (#[trigger] s[k]) != '.'
            &&& forall|k: int|
                #![trigger s[k]]
                0 <= k && k + 1 < s.len() ==> !(s[k] == ':' && s[k + 1] == ':')
        }),
    decreases all.len(),
{
    let s = groups_text(all);
    if all.len() == 1 {
        a_hexadecimal_number_is_read_back(all[0] as nat);
    } else if all.len() > 1 {
        groups_text_has_an_end(all.drop_last());
        let front = groups_text(all.drop_last());
        let last = hex_text(all.last() as nat);
        a_hexadecimal_number_is_read_back(all.last() as nat);
        assert(s == front + seq![':'] + last);
        let n = front.len() as int;
        assert forall|k: int| 0 <= k < s.len() implies (#[trigger] s[k]) != '.' by {
            if k < n {
                assert(s[k] == front[k]);
            } else if k > n {
                assert(s[k] == last[k - n - 1]);
            }
        }
        assert forall|k: int|
            #![trigger s[k]]
            0 <= k && k + 1 < s.len() implies !(s[k] == ':' && s[k + 1] == ':') by {
            if k + 1 < n {
                assert(s[k] == front[k] && s[k + 1] == front[k + 1]);
            } else if k + 1 == n {
                assert(s[k] == front[n - 1]);
            } else if k == n {
                assert(s[k + 1] == last[0]);
            } else {
                assert(s[k] == last[k - n - 1]);
            }
        }
        assert(s[0] == front[0]);
        assert(s[s.len() - 1] == last[last.len() - 1]);
    }
}

/// The groups of an address come to it.
proof fn groups_come_to_the_address(address: nat, n: nat)
    ensures
        groups_of(address, n).len() == n,
        groups_value(as_ints(groups_of(address, n))) == address % power_of_groups(n),
        power_of_groups(n) > 0,
    decreases n,
{
    let all = groups_of(address, n);
    if n > 0 {
        let front = groups_of(address / 65536, (n - 1) as nat);
        groups_come_to_the_address(address / 65536, (n - 1) as nat);
        assert(all.drop_last() =~= front);
        assert(as_ints(all).drop_last() =~= as_ints(front));
        let p = power_of_groups((n - 1) as nat);
        let high = address / 65536;
        assert(address % (p * 65536) == (high % p) * 65536 + address % 65536) by (nonlinear_arith)
            requires
                p > 0,
                high == address / 65536,
        {
            let q = high / p;
            let r = high % p;
            assert(high == q * p + r && 0 <= r < p);
            let low = address % 65536;
            assert(address == high * 65536 + low && 0 <= low < 65536);
            let rest = r * 65536 + low;
            assert(address == q * (p * 65536) + rest);
            assert(0 <= rest < p * 65536);
            assert(address % (p * 65536) == rest);
        }
    } else {
        assert(address % 1 == 0);
    }
}

/// Eight groups hold every address.
proof fn eight_groups_hold_every_address(address: nat)
    requires
        address < 0x1_0000_0000_0000_0000_0000_0000_0000_0000,
    ensures
        groups_of(address, 8).len() == 8,
        groups_value(as_ints(groups_of(address, 8))) == address,
{
    groups_come_to_the_address(address, 8);
    reveal_with_fuel(power_of_groups, 9);
    let big = power_of_groups(8);
    assert(big == 0x1_0000_0000_0000_0000_0000_0000_0000_0000);
    lemma_small_mod(address, big);
}

/// How many numbers so many groups can hold.
spec fn power_of_groups(n: nat) -> nat
    decreases n,
{
    if n == 0 {
        1
    } else {
        power_of_groups((n - 1) as nat) * 65536
    }
}

/// A run of zeros is made of zeros.
proof fn a_run_of_zeros(all: Seq<u16>, from: int)
    requires
        0 <= from <= all.len(),
    ensures
        from + zeros_from(all, from) <= all.len(),
        forall|k: int| from <= k < from + zeros_from(all, from) ==> (#[trigger] all[k]) == 0,
    decreases all.len() - from,
{
    if from < all.len() && all[from] == 0 {
        a_run_of_zeros(all, from + 1);
    }
}

proof fn a_run_begins_within(all: Seq<u16>, n: nat)
    requires
        n <= all.len(),
    ensures
        0 <= longest_run(all, n) <= all.len(),
        n > 0 ==> longest_run(all, n) < n,
    decreases n,
{
    if n > 1 {
        a_run_begins_within(all, (n - 1) as nat);
    }
}

/// Eight groups that are shown, with or without a run of zeros left out, are read back.
proof fn compressed_groups_are_read_back(all: Seq<u16>)
    requires
        all.len() == 8,
    ensures
        v4(compressed(all)) is None,
        v6(compressed(all)) == Some(groups_value(as_ints(all))),
{
    let s = compressed(all);
    let start = longest_run(all, all.len());
    a_run_begins_within(all, all.len());
    a_run_of_zeros(all, start);
    let end = start + zeros_from(all, start);
    reveal_strlit("::");
    if end - start > 1 {
        let head = groups_text(all.take(start));
        let tail = groups_text(all.skip(end));
        groups_text_has_an_end(all.take(start));
        groups_text_has_an_end(all.skip(end));
        groups_are_read_back(all.take(start), false);
        groups_are_read_back(all.skip(end), true);
        let at = head.len() as int;
        assert(s == head + "::"@ + tail);
        assert(s[at] == ':' && s[at + 1] == ':');
        assert forall|i: int|
            #![trigger s[i]]
            0 <= i < at && i + 1 < s.len() implies !(s[i] == ':' && s[i + 1] == ':') by {
            assert(s[i] == head[i]);
            if i + 1 < at {
                assert(s[i + 1] == head[i + 1]);
            }
        }
        double_colon_found(s, 0, at);
        assert(s.take(at) =~= head);
        assert(s.skip(at + 2) =~= tail);
        let heads = as_ints(all.take(start));
        let tails = as_ints(all.skip(end));
        assert(heads + Seq::new((8 - heads.len() - tails.len()) as nat, |i: int| 0int) + tails
            =~= as_ints(all));
        assert forall|k: int| 0 <= k < s.len() implies (#[trigger] s[k]) != '.' by {
            if k < at {
                assert(s[k] == head[k]);
            } else if k >= at + 2 {
                assert(s[k] == tail[k - at - 2]);
            }
        }
        no_dots_no_dotted_address(s);
    } else {
        groups_text_has_an_end(all);
        groups_are_read_back(all, true);
        double_colon_found(s, 0, s.len() as int);
        no_dots_no_dotted_address(s);
    }
}

/// What begins with a colon is no dotted address.
proof fn a_colon_begins_no_dotted_address(s: Seq<char>)
    requires
        s.len() > 0,
        s[0] == ':',
    ensures
        v4(s) is None,
{
    text::cutting_leaves_the_pieces_between(s, '.');
    let pieces = split(s, '.');
    if pieces[0].len() > 0 {
        joined_begins_with_its_first(pieces, seq!['.']);
        assert(pieces[0][0] == s[0]);
        assert(!crate::number::is_digit(pieces[0][0]));
    }
    assert(octet(pieces[0]) is None);
}

/// Four letters are the highest group.
proof fn four_letters_are_the_highest_group()
    ensures
        group(seq!['f', 'f', 'f', 'f']) == Some(0xffffint),
{
    let s = seq!['f', 'f', 'f', 'f'];
    let s3 = s.drop_last();
    let s2 = s3.drop_last();
    let s1 = s2.drop_last();
    assert(s1.drop_last() =~= Seq::empty());
    assert(hex_value(s1.drop_last()) == Some(0int));
    assert(hex('f') == Some(15int));
    assert(hex_value(s1) == Some(15int));
    assert(hex_value(s2) == Some(255int));
    assert(hex_value(s3) == Some(4095int));
}

/// The group that tells of an old address, and the address, are three groups.
proof fn a_mapped_address_ends_in_three_groups(a: nat)
    requires
        a < 0x1_0000_0000,
    ensures
        run_of_groups(seq!['f', 'f', 'f', 'f'] + seq![':'] + dotted(a), true) == Some(
            seq![0xffffint, a as int / 65536, a as int % 65536],
        ),
{
    let four = seq!['f', 'f', 'f', 'f'];
    let tail = four + seq![':'] + dotted(a);
    let fields = seq![four, dotted(a)];
    a_dotted_address_is_its_octets(a);
    assert(fields.drop_last() =~= seq![four]);
    assert(joined(fields.drop_last(), seq![':']) == four);
    assert(joined(fields, seq![':']) == tail);
    assert forall|i: int, k: int|
        0 <= i < fields.len() && 0 <= k < fields[i].len() implies (#[trigger] fields[i][k])
        != ':' by {
        if i == 1 {
            assert(dotted(a)[k] != ':');
        }
    }
    text::what_was_joined_is_cut_apart(fields, ':');
    four_letters_are_the_highest_group();
    assert(groups(fields, 0) == Some(Seq::<int>::empty()));
    assert(groups(fields, 1) == Some(Seq::<int>::empty().push(0xffff)));
    assert(Seq::<int>::empty().push(0xffff) + seq![a as int / 65536, a as int % 65536] =~= seq![
        0xffffint,
        a as int / 65536,
        a as int % 65536,
    ]);
}

/// What the groups of an old address come to.
proof fn a_mapped_address_is_worth(zeros: Seq<int>, high: int, low: int)
    requires
        forall|i: int| 0 <= i < zeros.len() ==> (#[trigger] zeros[i]) == 0,
    ensures
        groups_value(zeros + seq![0xffffint, high, low]) == 0xffff_0000_0000 + high * 65536 + low,
{
    let whole = zeros + seq![0xffffint, high, low];
    assert(whole.drop_last().drop_last().drop_last() =~= zeros);
    zeros_are_worth_nothing(zeros);
    assert(groups_value(whole.drop_last().drop_last()) == 0xffff);
    assert(groups_value(whole.drop_last()) == 0xffff * 65536 + high);
}

/// An address of the old kind within the new is read back.
proof fn a_mapped_address_is_read_back(a: nat)
    requires
        a < 0x1_0000_0000,
    ensures
        v4("::ffff:"@ + dotted(a)) is None,
        v6("::ffff:"@ + dotted(a)) == Some(0xffff_0000_0000 + a as int),
{
    reveal_strlit("::ffff:");
    let s = "::ffff:"@ + dotted(a);
    a_colon_begins_no_dotted_address(s);
    double_colon_found(s, 0, 0);
    assert(s.skip(2) =~= seq!['f', 'f', 'f', 'f'] + seq![':'] + dotted(a));
    a_mapped_address_ends_in_three_groups(a);
    assert(s.take(0).len() == 0);
    let tail = seq![0xffffint, a as int / 65536, a as int % 65536];
    let zeros = Seq::new(5nat, |i: int| 0int);
    a_mapped_address_is_worth(zeros, a as int / 65536, a as int % 65536);
    assert(Seq::<int>::empty() + zeros + tail =~= zeros + tail);
}

proof fn zeros_are_worth_nothing(zeros: Seq<int>)
    requires
        forall|i: int| 0 <= i < zeros.len() ==> (#[trigger] zeros[i]) == 0,
    ensures
        groups_value(zeros) == 0,
    decreases zeros.len(),
{
    if zeros.len() > 0 {
        zeros_are_worth_nothing(zeros.drop_last());
        assert(zeros[zeros.len() - 1] == 0);
    }
}

proof fn joined_begins_with_its_first(parts: Seq<Seq<char>>, separator: Seq<char>)
    requires
        parts.len() > 0,
    ensures
        joined(parts, separator).len() >= parts[0].len(),
        forall|k: int|
            0 <= k < parts[0].len() ==> joined(parts, separator)[k] == (#[trigger] parts[0][k]),
    decreases parts.len(),
{
    if parts.len() > 1 {
        joined_begins_with_its_first(parts.drop_last(), separator);
        let front = joined(parts.drop_last(), separator);
        assert forall|k: int| 0 <= k < parts[0].len() implies joined(parts, separator)[k] == (
        #[trigger] parts[0][k]) by {
            assert(front[k] == parts.drop_last()[0][k]);
        }
    }
}

/// An address that is shown is read back as the same one.
pub proof fn an_address_is_read_as_it_is_shown(address: IpAddress)
    ensures
        address_of(address.shown()) == Some(address),
{
    match address {
        IpAddress::V4(a) => {
            a_dotted_address_is_its_octets(a as nat);
        },
        IpAddress::V6(a) => {
            let n = a as nat;
            if n / 0x1_0000_0000 == 0xffff {
                a_mapped_address_is_read_back(n % 0x1_0000_0000);
                assert(n == 0xffff_0000_0000 + n % 0x1_0000_0000);
            } else {
                eight_groups_hold_every_address(n);
                compressed_groups_are_read_back(groups_of(n, 8));
            }
        },
    }
}

/// An address of the old kind is written in four numbers, the highest first.
pub proof fn an_address_is_written_from_its_highest_part(a: u8, b: u8, c: u8, d: u8)
    ensures
        IpAddress::V4((((a * 256 + b) * 256 + c) * 256 + d) as u32).shown() == decimal(a as nat)
            + seq!['.'] + decimal(b as nat) + seq!['.'] + decimal(c as nat) + seq!['.'] + decimal(
            d as nat,
        ),
{
    let n = (((a * 256 + b) * 256 + c) * 256 + d) as nat;
    assert(n / 0x100_0000 == a && n / 0x1_0000 % 256 == b && n / 256 % 256 == c && n % 256 == d);
}

/// No run of zeros is longer than the one that is left out, and none as long comes before
/// it.
pub proof fn the_longest_run_is_left_out(all: Seq<u16>, n: nat, i: int)
    requires
        n <= all.len(),
        0 <= i < n,
    ensures
        zeros_from(all, i) <= zeros_from(all, longest_run(all, n)),
        i < longest_run(all, n) ==> zeros_from(all, i) < zeros_from(all, longest_run(all, n)),
    decreases n,
{
    if n > 1 {
        a_run_begins_within(all, (n - 1) as nat);
        if i < n - 1 {
            the_longest_run_is_left_out(all, (n - 1) as nat, i);
        } else {
            the_longest_run_is_left_out(all, (n - 1) as nat, longest_run(all, (n - 1) as nat));
        }
    }
}

} // verus!
