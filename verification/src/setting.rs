//! Reading one setting out of a configuration file.
//!
//! A connection setting that is wrong stops the reader. A tuning knob that is
//! wrong is left out with a warning, and keeps its default: a typo must not
//! keep a controller from starting that holds a battery.

use vstd::prelude::*;

use crate::address;
use crate::address::{address_of, IpAddress};
use crate::clock::Weekday;
use crate::number;
use crate::number::{milli_of, point};
use crate::text;
use crate::text::{normal, quoted, signed};
use crate::toml_tree::{entries_of, find, get, tree_is_its_parts, Toml, Tree};
use crate::units::{saturate_i64, saturated_i64, RetentionDays};

verus! {

/// The entries of a table.
pub type Table = Seq<(Seq<char>, Tree)>;

/// What a reader makes of a value: what it says, or what is wrong with it.
pub type Reading<T> = Result<T, Seq<char>>;

/// A reading of text, seen as characters.
pub open spec fn seen(reading: Result<String, String>) -> Reading<Seq<char>> {
    match reading {
        Ok(s) => Ok(s@),
        Err(e) => Err(e@),
    }
}

/// A reading of a plain value, with its error seen as characters.
pub open spec fn plain<T>(reading: Result<T, String>) -> Reading<T> {
    match reading {
        Ok(v) => Ok(v),
        Err(e) => Err(e@),
    }
}

// --- finding -------------------------------------------------------------------

/// The value of `key` in a section, where both are there.
pub open spec fn setting(root: Table, section: Seq<char>, key: Seq<char>) -> Option<Tree> {
    match find(root, section) {
        Some(Tree::Table(table)) => find(table, key),
        _ => None,
    }
}

/// A section by that name is there.
pub open spec fn has_section(root: Table, section: Seq<char>) -> bool {
    find(root, section) matches Some(Tree::Table(_))
}

/// What is wrong with a section: it is there, and no table.
pub open spec fn section_problem(root: Table, section: Seq<char>) -> Option<Seq<char>> {
    match find(root, section) {
        Some(Tree::Table(_)) => None,
        Some(other) => Some(section + " is not a table, found "@ + other.kind()),
        None => None,
    }
}

/// The entries of a section, where it is there.
pub fn open_section<'a>(root: &'a Vec<(String, Toml)>, section: &str) -> (out: Result<
    Option<&'a Vec<(String, Toml)>>,
    String,
>)
    ensures
        match out {
            Ok(Some(table)) => find(entries_of(root@), section@) == Some(
                Tree::Table(entries_of(table@)),
            ),
            Ok(None) => find(entries_of(root@), section@) is None,
            Err(error) => section_problem(entries_of(root@), section@) == Some(error@),
        },
        out is Ok ==> section_problem(entries_of(root@), section@) is None,
        out matches Ok(found) ==> (found is Some <==> has_section(entries_of(root@), section@)),
{
    match get(root, section) {
        None => Ok(None),
        Some(toml) => {
            proof {
                tree_is_its_parts(*toml);
            }
            match toml {
                Toml::Table(table) => Ok(Some(table)),
                other => {
                    let mut error = section.to_owned();
                    error.append(" is not a table, found ");
                    error.append(other.type_str());
                    Err(error)
                },
            }
        },
    }
}

/// A section that is not there has no settings.
pub fn look<'a>(section: Option<&'a Vec<(String, Toml)>>, key: &str) -> (out: Option<&'a Toml>)
    ensures
        match section {
            Some(table) => match out {
                Some(toml) => find(entries_of(table@), key@) == Some(toml.tree()),
                None => find(entries_of(table@), key@) is None,
            },
            None => out is None,
        },
{
    match section {
        Some(table) => get(table, key),
        None => None,
    }
}

// --- reading -------------------------------------------------------------------

/// A number with a fraction as it is told of: one that could be taken for a whole
/// number gets its point.
pub open spec fn pointed(s: Seq<char>) -> Seq<char> {
    if milli_of(s) is Some && point(s, 0) >= s.len() {
        s + ".0"@
    } else {
        s
    }
}

/// What a value is called where another was expected.
pub open spec fn described(tree: Tree) -> Seq<char> {
    match tree {
        Tree::Text(s) => "string "@ + quoted(s),
        Tree::Datetime(s) => "string "@ + quoted(s),
        Tree::Integer(n) => "integer `"@ + signed(n) + "`"@,
        Tree::Float(s) => "floating point `"@ + pointed(s) + "`"@,
        Tree::Boolean(b) => if b {
            "boolean `true`"@
        } else {
            "boolean `false`"@
        },
        Tree::Array(_) => "sequence"@,
        Tree::Table(_) => "map"@,
    }
}

/// A value is of another type than was expected.
pub open spec fn mismatch(expected: Seq<char>, tree: Tree) -> Seq<char> {
    "invalid type: "@ + described(tree) + ", expected "@ + expected
}

/// A value is of the type that was expected, and does not fit.
pub open spec fn misfit(expected: Seq<char>, tree: Tree) -> Seq<char> {
    "invalid value: "@ + described(tree) + ", expected "@ + expected
}

fn describe(toml: &Toml) -> (out: String)
    ensures
        out@ == described(toml.tree()),
{
    let mut out = String::new();
    match toml {
        Toml::Text(s) => {
            out.append("string ");
            text::push_quoted(&mut out, s.as_str());
        },
        Toml::Datetime(s) => {
            out.append("string ");
            text::push_quoted(&mut out, s.as_str());
        },
        Toml::Integer(n) => {
            out.append("integer `");
            text::push_signed(&mut out, *n as i128);
            out.append("`");
        },
        Toml::Float(s) => {
            out.append("floating point `");
            out.append(s.as_str());
            if number::parse_milli(s.as_str()).is_some() && !number::has_point(s.as_str()) {
                out.append(".0");
            }
            out.append("`");
        },
        Toml::Boolean(b) => if *b {
            out.append("boolean `true`");
        } else {
            out.append("boolean `false`");
        },
        Toml::Array(_) => {
            out.append("sequence");
        },
        Toml::Table(_) => {
            out.append("map");
        },
    }
    assert(out@ =~= described(toml.tree()));
    out
}

fn say_mismatch(expected: &str, toml: &Toml) -> (out: String)
    ensures
        out@ == mismatch(expected@, toml.tree()),
{
    let mut out = "invalid type: ".to_owned();
    out.append(describe(toml).as_str());
    out.append(", expected ");
    out.append(expected);
    out
}

fn say_misfit(expected: &str, toml: &Toml) -> (out: String)
    ensures
        out@ == misfit(expected@, toml.tree()),
{
    let mut out = "invalid value: ".to_owned();
    out.append(describe(toml).as_str());
    out.append(", expected ");
    out.append(expected);
    out
}

/// Text, by the name that it is expected under. A date or a time is as good as
/// what is written.
pub open spec fn read_words(tree: Tree, expected: Seq<char>) -> Reading<Seq<char>> {
    match tree {
        Tree::Text(s) => Ok(s),
        Tree::Datetime(s) => Ok(s),
        other => Err(mismatch(expected, other)),
    }
}

fn words_of(toml: &Toml, expected: &str) -> (out: Result<String, String>)
    ensures
        seen(out) == read_words(toml.tree(), expected@),
{
    match toml {
        Toml::Text(s) => Ok(s.clone()),
        Toml::Datetime(s) => Ok(s.clone()),
        other => Err(say_mismatch(expected, other)),
    }
}

pub open spec fn read_text(tree: Tree) -> Reading<Seq<char>> {
    read_words(tree, "a string"@)
}

pub fn text_of(toml: &Toml) -> (out: Result<String, String>)
    ensures
        seen(out) == read_text(toml.tree()),
{
    words_of(toml, "a string")
}

/// Where a file is.
pub open spec fn read_path(tree: Tree) -> Reading<Seq<char>> {
    read_words(tree, "path string"@)
}

pub fn path_of(toml: &Toml) -> (out: Result<String, String>)
    ensures
        seen(out) == read_path(toml.tree()),
{
    words_of(toml, "path string")
}

/// The type that holds whole numbers up to `most`.
pub open spec fn count_type(most: int) -> Seq<char> {
    if most == u16::MAX {
        "u16"@
    } else if most == u32::MAX {
        "u32"@
    } else {
        "u64"@
    }
}

pub fn say_count_type(most: u64) -> (out: &'static str)
    ensures
        out@ == count_type(most as int),
{
    if most == 0xffff {
        "u16"
    } else if most == 0xffff_ffff {
        "u32"
    } else {
        "u64"
    }
}

/// A whole number from nothing up to `most`.
pub open spec fn read_count(tree: Tree, most: int) -> Reading<int> {
    match tree {
        Tree::Integer(n) => if 0 <= n <= most {
            Ok(n)
        } else {
            Err(misfit(count_type(most), tree))
        },
        other => Err(mismatch(count_type(most), other)),
    }
}

pub fn count_of(toml: &Toml, most: u64) -> (out: Result<u64, String>)
    ensures
        match out {
            Ok(n) => read_count(toml.tree(), most as int) == Ok::<int, Seq<char>>(n as int) && n
                <= most,
            Err(e) => read_count(toml.tree(), most as int) == Err::<int, Seq<char>>(e@),
        },
{
    match toml {
        Toml::Integer(n) => {
            let n: i64 = *n;
            if n >= 0 && n as u64 <= most {
                Ok(n as u64)
            } else {
                Err(say_misfit(say_count_type(most), toml))
            }
        },
        other => Err(say_mismatch(say_count_type(most), other)),
    }
}

/// A power in whole watts, of either sign.
pub open spec fn read_watts(tree: Tree) -> Reading<int> {
    match tree {
        Tree::Integer(n) => if i32::MIN <= n <= i32::MAX {
            Ok(n)
        } else {
            Err(misfit("i32"@, tree))
        },
        other => Err(mismatch("i32"@, other)),
    }
}

pub fn watts_of(toml: &Toml) -> (out: Result<i32, String>)
    ensures
        match out {
            Ok(n) => read_watts(toml.tree()) == Ok::<int, Seq<char>>(n as int),
            Err(e) => read_watts(toml.tree()) == Err::<int, Seq<char>>(e@),
        },
{
    match toml {
        Toml::Integer(n) => {
            let n: i64 = *n;
            if -0x8000_0000 <= n && n <= 0x7fff_ffff {
                Ok(n as i32)
            } else {
                Err(say_misfit("i32", toml))
            }
        },
        other => Err(say_mismatch("i32", other)),
    }
}

/// A number in thousandths, as far as the range goes. An integer is as good as
/// one with a fraction.
pub open spec fn finite_milli(tree: Tree) -> Option<int> {
    match tree {
        Tree::Integer(n) => Some(saturated_i64(n * 1000)),
        Tree::Float(s) => match milli_of(s) {
            Some(m) => Some(saturated_i64(m)),
            None => None,
        },
        _ => None,
    }
}

pub fn find_finite_milli(toml: &Toml) -> (out: Option<i64>)
    ensures
        match out {
            Some(m) => finite_milli(toml.tree()) == Some(m as int),
            None => finite_milli(toml.tree()) is None,
        },
{
    match toml {
        Toml::Integer(n) => Some(saturate_i64(*n as i128 * 1000)),
        Toml::Float(s) => number::parse_milli(s.as_str()),
        _ => None,
    }
}

/// A number in thousandths, as far as the range goes: what is beyond every
/// number is at the end of the range.
pub open spec fn milli_value(tree: Tree) -> Option<int> {
    if tree == Tree::Float("inf"@) {
        Some(i64::MAX as int)
    } else if tree == Tree::Float("-inf"@) {
        Some(i64::MIN as int)
    } else {
        finite_milli(tree)
    }
}

pub fn find_milli(toml: &Toml) -> (out: Option<i64>)
    ensures
        match out {
            Some(m) => milli_value(toml.tree()) == Some(m as int),
            None => milli_value(toml.tree()) is None,
        },
{
    if let Toml::Float(s) = toml {
        if text::same(s.as_str(), "inf") {
            return Some(i64::MAX);
        }
        if text::same(s.as_str(), "-inf") {
            return Some(i64::MIN);
        }
    }
    find_finite_milli(toml)
}

/// A threshold in thousandths. One that is no number compares with nothing, as
/// `nan` does.
pub open spec fn read_threshold(tree: Tree, nan: int) -> Reading<int> {
    match tree {
        Tree::Integer(_) | Tree::Float(_) => match milli_value(tree) {
            Some(m) => Ok(m),
            None => Ok(nan),
        },
        other => Err(mismatch("f64"@, other)),
    }
}

pub fn threshold_of(toml: &Toml, nan: i64) -> (out: Result<i64, String>)
    ensures
        match out {
            Ok(m) => read_threshold(toml.tree(), nan as int) == Ok::<int, Seq<char>>(m as int),
            Err(e) => read_threshold(toml.tree(), nan as int) == Err::<int, Seq<char>>(e@),
        },
{
    match toml {
        Toml::Integer(_) | Toml::Float(_) => match find_milli(toml) {
            Some(m) => Ok(m),
            None => Ok(nan),
        },
        other => Err(say_mismatch("f64", other)),
    }
}

/// A number of days, at least one.
pub open spec fn read_days(tree: Tree) -> Reading<int> {
    match tree {
        Tree::Integer(n) => if n >= 1 {
            Ok(n)
        } else {
            Err(misfit("at least one day"@, tree))
        },
        other => Err(mismatch("i64"@, other)),
    }
}

pub fn days_of(toml: &Toml) -> (out: Result<RetentionDays, String>)
    ensures
        match out {
            Ok(d) => read_days(toml.tree()) == Ok::<int, Seq<char>>(d@),
            Err(e) => read_days(toml.tree()) == Err::<int, Seq<char>>(e@),
        },
{
    match toml {
        Toml::Integer(n) => match RetentionDays::new(*n) {
            Some(days) => Ok(days),
            None => Err(say_misfit("at least one day", toml)),
        },
        other => Err(say_mismatch("i64", other)),
    }
}

/// The weekday that a name in lower case stands for.
pub open spec fn weekday_of(s: Seq<char>) -> Option<Weekday> {
    if s == "mon"@ || s == "monday"@ {
        Some(Weekday::Mon)
    } else if s == "tue"@ || s == "tuesday"@ {
        Some(Weekday::Tue)
    } else if s == "wed"@ || s == "wednesday"@ {
        Some(Weekday::Wed)
    } else if s == "thu"@ || s == "thursday"@ {
        Some(Weekday::Thu)
    } else if s == "fri"@ || s == "friday"@ {
        Some(Weekday::Fri)
    } else if s == "sat"@ || s == "saturday"@ {
        Some(Weekday::Sat)
    } else if s == "sun"@ || s == "sunday"@ {
        Some(Weekday::Sun)
    } else {
        None
    }
}

/// The weekday that a name in lower case stands for.
pub fn find_weekday(name: &str) -> (out: Option<Weekday>)
    ensures
        out == weekday_of(name@),
{
    if text::same(name, "mon") || text::same(name, "monday") {
        Some(Weekday::Mon)
    } else if text::same(name, "tue") || text::same(name, "tuesday") {
        Some(Weekday::Tue)
    } else if text::same(name, "wed") || text::same(name, "wednesday") {
        Some(Weekday::Wed)
    } else if text::same(name, "thu") || text::same(name, "thursday") {
        Some(Weekday::Thu)
    } else if text::same(name, "fri") || text::same(name, "friday") {
        Some(Weekday::Fri)
    } else if text::same(name, "sat") || text::same(name, "saturday") {
        Some(Weekday::Sat)
    } else if text::same(name, "sun") || text::same(name, "sunday") {
        Some(Weekday::Sun)
    } else {
        None
    }
}

/// The weekday that `s` names, in any case and with space around it.
pub fn parse_weekday(s: &str) -> (out: Result<Weekday, String>)
    ensures
        match out {
            Ok(day) => weekday_of(normal(s@)) == Some(day),
            Err(e) => weekday_of(normal(s@)) is None && e@
                == "must be one of Mon, Tue, Wed, Thu, Fri, Sat, Sun, or 'none'"@,
        },
{
    let name = text::normalize(s);
    match find_weekday(name.as_str()) {
        Some(day) => Ok(day),
        None => Err("must be one of Mon, Tue, Wed, Thu, Fri, Sat, Sun, or 'none'".to_owned()),
    }
}

/// A weekday, or none at all.
pub open spec fn read_balance_day(tree: Tree) -> Reading<Option<Weekday>> {
    match read_text(tree) {
        Ok(s) => {
            let name = normal(s);
            if name == "none"@ || name == "off"@ || name == ""@ {
                Ok(None)
            } else {
                match weekday_of(name) {
                    Some(day) => Ok(Some(day)),
                    None => Err("must be one of Mon, Tue, Wed, Thu, Fri, Sat, Sun, or 'none'"@),
                }
            }
        },
        Err(e) => Err(e),
    }
}

pub fn balance_day_of(toml: &Toml) -> (out: Result<Option<Weekday>, String>)
    ensures
        plain(out) == read_balance_day(toml.tree()),
{
    match text_of(toml) {
        Ok(s) => {
            let name = text::normalize(s.as_str());
            if text::same(name.as_str(), "none") || text::same(name.as_str(), "off")
                || text::same(name.as_str(), "") {
                Ok(None)
            } else {
                match parse_weekday(s.as_str()) {
                    Ok(day) => Ok(Some(day)),
                    Err(e) => Err(e),
                }
            }
        },
        Err(e) => Err(e),
    }
}

/// The name is that of an IANA timezone.
pub uninterp spec fn is_timezone(name: Seq<char>) -> bool;

/// `chrono_tz::Tz`'s `FromStr`: whether it knows a timezone by that name. Which
/// names it knows is left unsaid.
#[verifier::external_body]
fn knows_timezone(name: &str) -> (out: bool)
    ensures
        out == is_timezone(name@),
{
    name.parse::<chrono_tz::Tz>().is_ok()
}

pub open spec fn read_timezone(tree: Tree) -> Reading<Seq<char>> {
    match read_text(tree) {
        Ok(s) => if is_timezone(s) {
            Ok(s)
        } else {
            Err("must be a valid IANA timezone (e.g. Europe/Amsterdam)"@)
        },
        Err(e) => Err(e),
    }
}

pub fn timezone_of(toml: &Toml) -> (out: Result<String, String>)
    ensures
        seen(out) == read_timezone(toml.tree()),
{
    match text_of(toml) {
        Ok(s) => if knows_timezone(s.as_str()) {
            Ok(s)
        } else {
            Err("must be a valid IANA timezone (e.g. Europe/Amsterdam)".to_owned())
        },
        Err(e) => Err(e),
    }
}

pub open spec fn read_address(tree: Tree) -> Reading<IpAddress> {
    match read_words(tree, "IP address"@) {
        Ok(s) => match address_of(s) {
            Some(address) => Ok(address),
            None => Err("invalid IP address syntax"@),
        },
        Err(e) => Err(e),
    }
}

pub fn ip_of(toml: &Toml) -> (out: Result<IpAddress, String>)
    ensures
        plain(out) == read_address(toml.tree()),
{
    match words_of(toml, "IP address") {
        Ok(s) => match address::parse(s.as_str()) {
            Some(address) => Ok(address),
            None => Err("invalid IP address syntax".to_owned()),
        },
        Err(e) => Err(e),
    }
}

// --- policies ------------------------------------------------------------------

/// The first of two problems.
pub open spec fn first(a: Option<Seq<char>>, b: Option<Seq<char>>) -> Option<Seq<char>> {
    if a is Some {
        a
    } else {
        b
    }
}

/// What stops the reader at a setting that has to be there.
pub open spec fn required<T>(path: Seq<char>, reading: Option<Reading<T>>) -> Option<Seq<char>> {
    match reading {
        None => Some(path + " is required"@),
        Some(Err(e)) => Some(path + ": "@ + e + "\n"@),
        Some(Ok(_)) => None,
    }
}

/// What stops the reader at a setting that may be left out.
pub open spec fn optional<T>(path: Seq<char>, reading: Option<Reading<T>>) -> Option<Seq<char>> {
    match reading {
        Some(Err(e)) => Some(path + ": "@ + e + "\n"@),
        _ => None,
    }
}

/// A knob's value: what was read, or its default.
pub open spec fn kept<T>(reading: Option<Reading<T>>, default: T) -> T {
    match reading {
        Some(Ok(v)) => v,
        _ => default,
    }
}

/// What is wrong with a setting that is there.
pub open spec fn fault<T>(reading: Option<Reading<T>>) -> Option<Seq<char>> {
    match reading {
        Some(Err(e)) => Some(e),
        _ => None,
    }
}

/// The warning for a knob that was there and could not be read.
pub open spec fn warned(path: Seq<char>, fault: Option<Seq<char>>, default: Seq<char>) -> Seq<
    Seq<char>,
> {
    match fault {
        Some(e) => seq![path + " ignored ("@ + e + "); keeping "@ + default],
        None => Seq::empty(),
    }
}

pub fn say_required(path: &str) -> (out: String)
    ensures
        out@ == path@ + " is required"@,
{
    let mut out = path.to_owned();
    out.append(" is required");
    out
}

pub fn say_wrong(path: &str, error: &str) -> (out: String)
    ensures
        out@ == path@ + ": "@ + error@ + "\n"@,
{
    let mut out = path.to_owned();
    out.append(": ");
    out.append(error);
    out.append("\n");
    out
}

/// A connection setting: absent or wrong, it stops the reader.
pub fn demand<T>(path: &str, reading: Option<Result<T, String>>) -> (out: Result<T, String>)
    ensures
        match reading {
            None => out matches Err(e) && e@ == path@ + " is required"@,
            Some(Err(r)) => out matches Err(e) && e@ == path@ + ": "@ + r@ + "\n"@,
            Some(Ok(v)) => out == Ok::<T, String>(v),
        },
{
    match reading {
        None => Err(say_required(path)),
        Some(Err(e)) => Err(say_wrong(path, e.as_str())),
        Some(Ok(v)) => Ok(v),
    }
}

/// A connection setting with a default: wrong, it stops the reader.
pub fn accept<T>(path: &str, reading: Option<Result<T, String>>) -> (out: Result<
    Option<T>,
    String,
>)
    ensures
        match reading {
            None => out == Ok::<Option<T>, String>(None),
            Some(Err(r)) => out matches Err(e) && e@ == path@ + ": "@ + r@ + "\n"@,
            Some(Ok(v)) => out == Ok::<Option<T>, String>(Some(v)),
        },
{
    match reading {
        None => Ok(None),
        Some(Err(e)) => Err(say_wrong(path, e.as_str())),
        Some(Ok(v)) => Ok(Some(v)),
    }
}

/// A tuning knob: wrong, it warns and keeps its default.
pub fn lenient<T>(
    path: &str,
    reading: Option<Result<T, String>>,
    default: T,
    shown: &str,
    warnings: &mut Vec<String>,
) -> (out: T)
    ensures
        match reading {
            Some(Ok(v)) => out == v,
            _ => out == default,
        },
        text::views(final(warnings)@) == text::views(old(warnings)@) + warned(
            path@,
            match reading {
                Some(Err(e)) => Some(e@),
                _ => None,
            },
            shown@,
        ),
{
    match reading {
        Some(Ok(v)) => {
            assert(text::views(warnings@) + Seq::<Seq<char>>::empty() =~= text::views(warnings@));
            v
        },
        None => {
            assert(text::views(warnings@) + Seq::<Seq<char>>::empty() =~= text::views(warnings@));
            default
        },
        Some(Err(e)) => {
            let mut warning = path.to_owned();
            warning.append(" ignored (");
            warning.append(e.as_str());
            warning.append("); keeping ");
            warning.append(shown);
            let ghost before = warnings@;
            warnings.push(warning);
            proof {
                assert(text::views(warnings@) =~= text::views(before) + seq![warning@]);
            }
            default
        },
    }
}

// --- laws ----------------------------------------------------------------------

/// A weekday by the three letters that it is written with.
pub open spec fn short_name(day: Weekday) -> Seq<char> {
    match day {
        Weekday::Mon => "Mon"@,
        Weekday::Tue => "Tue"@,
        Weekday::Wed => "Wed"@,
        Weekday::Thu => "Thu"@,
        Weekday::Fri => "Fri"@,
        Weekday::Sat => "Sat"@,
        Weekday::Sun => "Sun"@,
    }
}

/// A weekday is read by the name that it is written with, whatever the case of its
/// letters.
pub proof fn a_weekday_is_read_by_its_short_name(day: Weekday)
    ensures
        weekday_of(short_name(day).map_values(|c: char| text::lower(c))) == Some(day),
{
    let low = short_name(day).map_values(|c: char| text::lower(c));
    reveal_strlit("Mon");
    reveal_strlit("Tue");
    reveal_strlit("Wed");
    reveal_strlit("Thu");
    reveal_strlit("Fri");
    reveal_strlit("Sat");
    reveal_strlit("Sun");
    reveal_strlit("mon");
    reveal_strlit("tue");
    reveal_strlit("wed");
    reveal_strlit("thu");
    reveal_strlit("fri");
    reveal_strlit("sat");
    reveal_strlit("sun");
    reveal_strlit("monday");
    reveal_strlit("tuesday");
    reveal_strlit("wednesday");
    reveal_strlit("thursday");
    reveal_strlit("friday");
    reveal_strlit("saturday");
    reveal_strlit("sunday");
    assert(low.len() == 3);
    match day {
        Weekday::Mon => {
            assert(low =~= "mon"@);
        },
        Weekday::Tue => {
            assert(low =~= "tue"@);
            assert("mon"@[0] == 'm');
        },
        Weekday::Wed => {
            assert(low =~= "wed"@);
            assert("mon"@[0] == 'm' && "tue"@[0] == 't');
        },
        Weekday::Thu => {
            assert(low =~= "thu"@);
            assert("mon"@[0] == 'm' && "tue"@[1] == 'u' && "wed"@[0] == 'w' && "thu"@[1] == 'h');
        },
        Weekday::Fri => {
            assert(low =~= "fri"@);
            assert("mon"@[0] == 'm' && "tue"@[0] == 't' && "wed"@[0] == 'w' && "thu"@[0] == 't');
        },
        Weekday::Sat => {
            assert(low =~= "sat"@);
            assert("mon"@[0] == 'm' && "tue"@[0] == 't' && "wed"@[0] == 'w' && "thu"@[0] == 't'
                && "fri"@[0] == 'f');
        },
        Weekday::Sun => {
            assert(low =~= "sun"@);
            assert("mon"@[0] == 'm' && "tue"@[0] == 't' && "wed"@[0] == 'w' && "thu"@[0] == 't'
                && "fri"@[0] == 'f' && "sat"@[1] == 'a' && "sun"@[1] == 'u');
        },
    }
}

/// A setting is what its section holds under its key. A section that is not there holds
/// nothing, and one that is no table is told of.
pub proof fn a_setting_stands_in_its_section(
    root: Table,
    section: Seq<char>,
    key: Seq<char>,
    table: Table,
    text: Seq<char>,
)
    ensures
        find(root, section) == Some(Tree::Table(table)) ==> setting(root, section, key) == find(
            table,
            key,
        ) && has_section(root, section) && section_problem(root, section) is None,
        find(root, section) is None ==> setting(root, section, key) is None && !has_section(
            root,
            section,
        ) && section_problem(root, section) is None,
        find(root, section) == Some(Tree::Text(text)) ==> setting(root, section, key) is None
            && section_problem(root, section) == Some(
            section + " is not a table, found "@ + "string"@,
        ),
        find(root, section) matches Some(tree) ==> !(tree is Table) ==> section_problem(
            root,
            section,
        ) is Some,
{
}

/// Text is read as it stands, and so is a date; nothing else is text.
pub proof fn text_is_read_as_it_stands(tree: Tree, s: Seq<char>)
    ensures
        read_text(Tree::Text(s)) == Ok::<Seq<char>, Seq<char>>(s),
        read_text(Tree::Datetime(s)) == Ok::<Seq<char>, Seq<char>>(s),
        read_path(Tree::Text(s)) == Ok::<Seq<char>, Seq<char>>(s),
        !(tree is Text) && !(tree is Datetime) ==> read_text(tree) == Err::<Seq<char>, Seq<char>>(
            mismatch("a string"@, tree),
        ) && read_path(tree) == Err::<Seq<char>, Seq<char>>(mismatch("path string"@, tree)),
{
}

/// A whole number is read as it is where it fits, and refused where it does not.
pub proof fn a_whole_number_is_read_where_it_fits(tree: Tree, n: int, most: int)
    ensures
        0 <= n <= most ==> read_count(Tree::Integer(n), most) == Ok::<int, Seq<char>>(n),
        n < 0 || n > most ==> read_count(Tree::Integer(n), most) is Err,
        !(tree is Integer) ==> read_count(tree, most) is Err,
        -0x8000_0000 <= n <= 0x7fff_ffff ==> read_watts(Tree::Integer(n)) == Ok::<int, Seq<char>>(
            n,
        ),
        n < -0x8000_0000 || n > 0x7fff_ffff ==> read_watts(Tree::Integer(n)) == Err::<
            int,
            Seq<char>,
        >(misfit("i32"@, Tree::Integer(n))),
        !(tree is Integer) ==> read_watts(tree) == Err::<int, Seq<char>>(mismatch("i32"@, tree)),
        n >= 1 ==> read_days(Tree::Integer(n)) == Ok::<int, Seq<char>>(n),
        n < 1 ==> read_days(Tree::Integer(n)) == Err::<int, Seq<char>>(
            misfit("at least one day"@, Tree::Integer(n)),
        ),
        !(tree is Integer) ==> read_days(tree) == Err::<int, Seq<char>>(mismatch("i64"@, tree)),
{
}

/// What does not fit is told of with the type that it should have.
pub proof fn a_misfit_is_told_of_with_its_type(n: int, tree: Tree)
    ensures
        n < 0 || n > 0xffff ==> read_count(Tree::Integer(n), 0xffff) == Err::<int, Seq<char>>(
            "invalid value: "@ + ("integer `"@ + signed(n) + "`"@) + ", expected "@ + "u16"@,
        ),
        n < 0 || n > 0xffff_ffff ==> read_count(Tree::Integer(n), 0xffff_ffff) == Err::<
            int,
            Seq<char>,
        >("invalid value: "@ + ("integer `"@ + signed(n) + "`"@) + ", expected "@ + "u32"@),
        n < 0 ==> read_count(Tree::Integer(n), 0xffff_ffff_ffff_ffff) == Err::<int, Seq<char>>(
            "invalid value: "@ + ("integer `"@ + signed(n) + "`"@) + ", expected "@ + "u64"@,
        ),
        !(tree is Integer) ==> read_count(tree, 0xffff_ffff) == Err::<int, Seq<char>>(
            "invalid type: "@ + described(tree) + ", expected "@ + "u32"@,
        ),
{
}

/// A value is described by its kind and by what it says.
pub proof fn a_value_is_described(
    s: Seq<char>,
    n: int,
    items: Seq<Tree>,
    entries: Seq<(Seq<char>, Tree)>,
)
    ensures
        described(Tree::Text(s)) == "string "@ + quoted(s),
        described(Tree::Datetime(s)) == "string "@ + quoted(s),
        described(Tree::Integer(n)) == "integer `"@ + signed(n) + "`"@,
        described(Tree::Boolean(true)) == "boolean `true`"@,
        described(Tree::Boolean(false)) == "boolean `false`"@,
        described(Tree::Array(items)) == "sequence"@,
        described(Tree::Table(entries)) == "map"@,
        milli_of(s) is None ==> described(Tree::Float(s)) == "floating point `"@ + s + "`"@,
        milli_of(s) is Some && point(s, 0) >= s.len() ==> described(Tree::Float(s))
            == "floating point `"@ + (s + ".0"@) + "`"@,
        point(s, 0) < s.len() ==> described(Tree::Float(s)) == "floating point `"@ + s + "`"@,
{
}

/// A threshold is held in thousandths, whether it is written with a fraction or without.
/// What is beyond every number is at the end of the range, and what is no number is as
/// `nan` says.
pub proof fn a_threshold_is_held_in_thousandths(n: int, s: Seq<char>, m: int, nan: int, tree: Tree)
    ensures
        -9_000_000_000_000_000 <= n <= 9_000_000_000_000_000 ==> read_threshold(
            Tree::Integer(n),
            nan,
        ) == Ok::<int, Seq<char>>(n * 1000),
        milli_of(s) == Some(m) && i64::MIN <= m <= i64::MAX && s != "inf"@ && s != "-inf"@
            ==> read_threshold(Tree::Float(s), nan) == Ok::<int, Seq<char>>(m),
        read_threshold(Tree::Float("inf"@), nan) == Ok::<int, Seq<char>>(i64::MAX as int),
        read_threshold(Tree::Float("-inf"@), nan) == Ok::<int, Seq<char>>(i64::MIN as int),
        milli_of(s) is None && s != "inf"@ && s != "-inf"@ ==> read_threshold(Tree::Float(s), nan)
            == Ok::<int, Seq<char>>(nan),
        !(tree is Integer) && !(tree is Float) ==> read_threshold(tree, nan) == Err::<
            int,
            Seq<char>,
        >(mismatch("f64"@, tree)),
{
    reveal_strlit("inf");
    reveal_strlit("-inf");
    assert("inf"@.len() == 3 && "-inf"@.len() == 4);
}

/// A balance day is the weekday that its name stands for; three words stand for none, and
/// any other is refused.
pub proof fn a_balance_day_is_a_weekday_or_none(s: Seq<char>, day: Weekday)
    ensures
        normal(s) == "none"@ || normal(s) == "off"@ || normal(s) == ""@ ==> read_balance_day(
            Tree::Text(s),
        ) == Ok::<Option<Weekday>, Seq<char>>(None),
        weekday_of(normal(s)) == Some(day) ==> read_balance_day(Tree::Text(s)) == Ok::<
            Option<Weekday>,
            Seq<char>,
        >(Some(day)),
        weekday_of(normal(s)) is None && normal(s) != "none"@ && normal(s) != "off"@ && normal(s)
            != ""@ ==> read_balance_day(Tree::Text(s)) is Err,
{
    reveal_strlit("none");
    reveal_strlit("off");
    reveal_strlit("");
    reveal_strlit("mon");
    reveal_strlit("tue");
    reveal_strlit("wed");
    reveal_strlit("thu");
    reveal_strlit("fri");
    reveal_strlit("sat");
    reveal_strlit("sun");
    reveal_strlit("monday");
    reveal_strlit("tuesday");
    reveal_strlit("wednesday");
    reveal_strlit("thursday");
    reveal_strlit("friday");
    reveal_strlit("saturday");
    reveal_strlit("sunday");
    assert("off"@[0] == 'o' && "mon"@[0] == 'm' && "tue"@[0] == 't' && "wed"@[0] == 'w'
        && "thu"@[0] == 't' && "fri"@[0] == 'f' && "sat"@[0] == 's' && "sun"@[0] == 's');
    assert("none"@.len() == 4 && ""@.len() == 0);
}

/// A weekday has its full name too.
pub proof fn a_weekday_has_its_full_name()
    ensures
        weekday_of("monday"@) == Some(Weekday::Mon),
        weekday_of("tuesday"@) == Some(Weekday::Tue),
        weekday_of("wednesday"@) == Some(Weekday::Wed),
        weekday_of("thursday"@) == Some(Weekday::Thu),
        weekday_of("friday"@) == Some(Weekday::Fri),
        weekday_of("saturday"@) == Some(Weekday::Sat),
        weekday_of("sunday"@) == Some(Weekday::Sun),
{
    reveal_strlit("mon");
    reveal_strlit("tue");
    reveal_strlit("wed");
    reveal_strlit("thu");
    reveal_strlit("fri");
    reveal_strlit("sat");
    reveal_strlit("sun");
    reveal_strlit("monday");
    reveal_strlit("tuesday");
    reveal_strlit("wednesday");
    reveal_strlit("thursday");
    reveal_strlit("friday");
    reveal_strlit("saturday");
    reveal_strlit("sunday");
    assert("monday"@[0] == 'm' && "tuesday"@.len() == 7 && "wednesday"@.len() == 9);
    assert("thursday"@[0] == 't' && "friday"@[0] == 'f' && "saturday"@[0] == 's');
    assert("sunday"@[0] == 's' && "monday"@.len() == 6 && "friday"@.len() == 6);
    assert("saturday"@.len() == 8 && "thursday"@.len() == 8 && "sunday"@.len() == 6);
}

/// A timezone is read by its name, where there is one of that name.
pub proof fn a_timezone_is_read_by_its_name(s: Seq<char>)
    ensures
        is_timezone(s) ==> read_timezone(Tree::Text(s)) == Ok::<Seq<char>, Seq<char>>(s),
        !is_timezone(s) ==> read_timezone(Tree::Text(s)) is Err,
{
}

/// An address is read as it is written, and anything else refused.
pub proof fn an_address_is_read_as_it_is_written(s: Seq<char>, address: IpAddress)
    ensures
        address_of(s) == Some(address) ==> read_address(Tree::Text(s)) == Ok::<
            IpAddress,
            Seq<char>,
        >(address),
        address_of(s) is None ==> read_address(Tree::Text(s)) == Err::<IpAddress, Seq<char>>(
            "invalid IP address syntax"@,
        ),
{
}

/// A setting that has to be there stops the reader when it is missing or wrong; one that
/// may be left out, only when it is wrong.
pub proof fn a_setting_stops_the_reader<T>(path: Seq<char>, value: T, e: Seq<char>)
    ensures
        required::<T>(path, None) == Some(path + " is required"@),
        required::<T>(path, Some(Err(e))) == Some(path + ": "@ + e + "\n"@),
        required::<T>(path, Some(Ok(value))) is None,
        optional::<T>(path, None) is None,
        optional::<T>(path, Some(Err(e))) == Some(path + ": "@ + e + "\n"@),
        optional::<T>(path, Some(Ok(value))) is None,
{
}

/// A knob has the value that is given, and its default when none is or when it is wrong;
/// only the last is warned of, by name, with the reason and the default.
pub proof fn a_knob_has_its_value_or_its_default<T>(
    path: Seq<char>,
    value: T,
    e: Seq<char>,
    default: T,
    shown: Seq<char>,
)
    ensures
        kept::<T>(Some(Ok(value)), default) == value,
        kept::<T>(None, default) == default,
        kept::<T>(Some(Err(e)), default) == default,
        warned(path, fault::<T>(Some(Ok(value))), shown).len() == 0,
        warned(path, fault::<T>(None), shown).len() == 0,
        warned(path, fault::<T>(Some(Err(e))), shown) == seq![
            path + " ignored ("@ + e + "); keeping "@ + shown,
        ],
{
}

/// Of two problems the first counts.
pub proof fn the_first_problem_counts(a: Seq<char>, b: Option<Seq<char>>)
    ensures
        first(Some(a), b) == Some(a),
        first(None, b) == b,
{
}

} // verus!
