//! What the program was asked to do.
//!
//! No arguments start the daemon. The offline commands are told apart before
//! any configuration is read, so they run without one.

use vstd::prelude::*;

use crate::calendar::{read_rfc3339, rfc3339};
use crate::config::DEFAULT_JOURNAL_PATH;
use crate::knobs::pairs;
use crate::number;
use crate::number::{digits_value, is_digit, is_digits};
use crate::text;
use crate::text::{position, views};
use crate::units::Timestamp;

verus! {

pub const HELP: &'static str = "\
zendure — home battery controller

    zendure
        Run the controller. This is what the service does, and what no
        arguments has always meant.

    zendure export --from <when> --to <when> [--db <path>] [--out <file>]
        Write the journal between two instants as a replay fixture. Starts at
        the last decision at or before --from, since that is the most recent
        state a replay can resume from. Writes to stdout without --out.

    zendure replay <fixture> [--verify] [--set <knob>=<value>]...
        Re-run a fixture's events through the decision engine and print the
        commands. --verify diffs them against what the daemon actually did and
        exits non-zero if they differ. --set changes one tuning knob first, for
        asking what a different setting would have done.

    <when> is unix milliseconds or RFC 3339 (2026-09-12T19:50:00Z).
    --db defaults to /var/lib/zendure/journal.db.
";

#[derive(Debug, PartialEq)]
pub enum Invocation {
    Daemon,
    Help,
    Export { from: Timestamp, to: Timestamp, db: String, out: Option<String> },
    Replay { fixture: String, verify: bool, overrides: Vec<(String, String)> },
}

/// An [`Invocation`] as a mathematical value.
pub enum Request {
    Daemon,
    Help,
    Export { from: int, to: int, db: Seq<char>, out: Option<Seq<char>> },
    Replay { fixture: Seq<char>, verify: bool, overrides: Seq<(Seq<char>, Seq<char>)> },
}

impl View for Invocation {
    type V = Request;

    open spec fn view(&self) -> Request {
        match *self {
            Invocation::Daemon => Request::Daemon,
            Invocation::Help => Request::Help,
            Invocation::Export { from, to, db, out } => Request::Export {
                from: from.ms as int,
                to: to.ms as int,
                db: db@,
                out: shown(out),
            },
            Invocation::Replay { fixture, verify, overrides } => Request::Replay {
                fixture: fixture@,
                verify,
                overrides: pairs(overrides@),
            },
        }
    }
}

pub open spec fn shown(s: Option<String>) -> Option<Seq<char>> {
    match s {
        Some(s) => Some(s@),
        None => None,
    }
}

pub type Answer<T> = Result<T, Seq<char>>;

// --- instants ------------------------------------------------------------------

/// Nothing but digits.
pub open spec fn all_digits(s: Seq<char>) -> bool {
    forall|i: int| 0 <= i < s.len() ==> is_digit(#[trigger] s[i])
}

/// What unix milliseconds come to.
pub open spec fn millis_of(raw: Seq<char>) -> Answer<int> {
    if is_digits(raw) && digits_value(raw) <= i64::MAX {
        Ok(digits_value(raw) as int)
    } else {
        Err("`"@ + raw + "` is too large to be unix milliseconds"@)
    }
}

/// What a date comes to, given what was read out of it.
pub open spec fn date_of(raw: Seq<char>, read: Result<i64, Seq<char>>) -> Answer<int> {
    match read {
        Ok(ms) => Ok(ms as int),
        Err(error) => Err(
            "`"@ + raw + "` is neither unix milliseconds nor RFC 3339: "@ + error,
        ),
    }
}

/// Unix milliseconds or RFC 3339. Digits are unambiguous: no RFC 3339 instant
/// is all digits.
pub open spec fn instant_of(raw: Seq<char>) -> Answer<int> {
    if all_digits(raw) {
        millis_of(raw)
    } else {
        date_of(raw, rfc3339(raw))
    }
}

pub open spec fn seen_instant(out: Result<Timestamp, String>) -> Answer<int> {
    match out {
        Ok(at) => Ok(at.ms as int),
        Err(error) => Err(error@),
    }
}

/// What a date comes to, given what was read out of it.
pub fn date(raw: &str, read: Result<i64, String>) -> (out: Result<Timestamp, String>)
    ensures
        seen_instant(out) == date_of(
            raw@,
            match read {
                Ok(ms) => Ok(ms),
                Err(error) => Err(error@),
            },
        ),
{
    match read {
        Ok(ms) => Ok(Timestamp::from_millis(ms)),
        Err(error) => {
            let mut message = "`".to_owned();
            message.append(raw);
            message.append("` is neither unix milliseconds nor RFC 3339: ");
            message.append(error.as_str());
            Err(message)
        },
    }
}

/// Unix milliseconds or RFC 3339.
pub fn instant(raw: &str) -> (out: Result<Timestamp, String>)
    ensures
        seen_instant(out) == instant_of(raw@),
{
    let chars = text::chars_of(raw);
    let mut i: usize = 0;
    while i < chars.len() && '0' <= chars[i] && chars[i] <= '9'
        invariant
            i <= chars.len(),
            forall|k: int| 0 <= k < i ==> is_digit(#[trigger] chars@[k]),
        decreases chars.len() - i,
    {
        i += 1;
    }
    if i < chars.len() {
        assert(!is_digit(raw@[i as int]));
        return date(raw, read_rfc3339(raw));
    }
    match number::parse_i64(raw) {
        Some(ms) => Ok(Timestamp::from_millis(ms)),
        None => {
            let mut message = "`".to_owned();
            message.append(raw);
            message.append("` is too large to be unix milliseconds");
            Err(message)
        },
    }
}

// --- flags ---------------------------------------------------------------------

/// The value behind a flag.
pub open spec fn value_of(args: Seq<Seq<char>>, i: int, flag: Seq<char>) -> Answer<Seq<char>> {
    if 0 <= i < args.len() {
        Ok(args[i])
    } else {
        Err(flag + " wants a value"@)
    }
}

pub open spec fn unexpected(command: Seq<char>, arg: Seq<char>) -> Seq<char> {
    command + ": unexpected argument `"@ + arg + "`"@
}

pub open spec fn seen_text(out: Result<String, String>) -> Answer<Seq<char>> {
    match out {
        Ok(text) => Ok(text@),
        Err(error) => Err(error@),
    }
}

fn value(args: &Vec<String>, i: usize, flag: &str) -> (out: Result<String, String>)
    ensures
        seen_text(out) == value_of(views(args@), i as int, flag@),
{
    if i < args.len() {
        return Ok(args[i].clone());
    }
    let mut message = flag.to_owned();
    message.append(" wants a value");
    Err(message)
}

fn refuse(command: &str, arg: &str) -> (out: String)
    ensures
        out@ == unexpected(command@, arg@),
{
    let mut message = command.to_owned();
    message.append(": unexpected argument `");
    message.append(arg);
    message.append("`");
    message
}

// --- export --------------------------------------------------------------------

/// What the flags of an export have said so far.
pub struct ExportFlags {
    pub from: Option<int>,
    pub to: Option<int>,
    pub db: Option<Seq<char>>,
    pub out: Option<Seq<char>>,
}

/// What the flags from the `i`th on add. A flag given twice counts by its last
/// value.
pub open spec fn export_flags(args: Seq<Seq<char>>, i: int, flags: ExportFlags) -> Answer<
    ExportFlags,
>
    decreases args.len() - i,
{
    if i < 0 || i >= args.len() {
        Ok(flags)
    } else if args[i] == "--from"@ || args[i] == "--to"@ {
        match value_of(args, i + 1, args[i]) {
            Err(error) => Err(error),
            Ok(raw) => match instant_of(raw) {
                Err(error) => Err(error),
                Ok(at) => export_flags(
                    args,
                    i + 2,
                    if args[i] == "--from"@ {
                        ExportFlags { from: Some(at), ..flags }
                    } else {
                        ExportFlags { to: Some(at), ..flags }
                    },
                ),
            },
        }
    } else if args[i] == "--db"@ || args[i] == "--out"@ {
        match value_of(args, i + 1, args[i]) {
            Err(error) => Err(error),
            Ok(path) => export_flags(
                args,
                i + 2,
                if args[i] == "--db"@ {
                    ExportFlags { db: Some(path), ..flags }
                } else {
                    ExportFlags { out: Some(path), ..flags }
                },
            ),
        }
    } else {
        Err(unexpected("export"@, args[i]))
    }
}

/// What the flags of an export come to.
pub open spec fn export_request(flags: ExportFlags) -> Answer<Request> {
    match (flags.from, flags.to) {
        (None, _) => Err("export: --from is required"@),
        (Some(_), None) => Err("export: --to is required"@),
        (Some(from), Some(to)) => if to < from {
            Err("export: --to is before --from"@)
        } else {
            Ok(
                Request::Export {
                    from,
                    to,
                    db: match flags.db {
                        Some(path) => path,
                        None => DEFAULT_JOURNAL_PATH@,
                    },
                    out: flags.out,
                },
            )
        },
    }
}

pub open spec fn export_of(args: Seq<Seq<char>>, i: int) -> Answer<Request> {
    match export_flags(args, i, ExportFlags { from: None, to: None, db: None, out: None }) {
        Err(error) => Err(error),
        Ok(flags) => export_request(flags),
    }
}

pub open spec fn seen_request(out: Result<Invocation, String>) -> Answer<Request> {
    match out {
        Ok(invocation) => Ok(invocation@),
        Err(error) => Err(error@),
    }
}

spec fn shown_at(at: Option<Timestamp>) -> Option<int> {
    match at {
        Some(at) => Some(at.ms as int),
        None => None,
    }
}

/// Reads the flags of an export, from the `start`th argument on.
fn parse_export(args: &Vec<String>, start: usize) -> (out: Result<Invocation, String>)
    requires
        start <= args.len(),
    ensures
        seen_request(out) == export_of(views(args@), start as int),
{
    let ghost all = views(args@);
    let mut from: Option<Timestamp> = None;
    let mut to: Option<Timestamp> = None;
    let mut db: Option<String> = None;
    let mut out: Option<String> = None;
    let mut i: usize = start;
    proof {
        reveal_strlit("--from");
        reveal_strlit("--to");
        reveal_strlit("--db");
        reveal_strlit("--out");
    }
    while i < args.len()
        invariant
            all == views(args@),
            i <= args.len(),
            "--from"@.len() == 6,
            "--to"@.len() == 4,
            "--db"@.len() == 4,
            "--to"@[2] == 't',
            "--db"@[2] == 'd',
            "--out"@.len() == 5,
            export_flags(
                all,
                start as int,
                ExportFlags { from: None, to: None, db: None, out: None },
            ) == export_flags(
                all,
                i as int,
                ExportFlags {
                    from: shown_at(from),
                    to: shown_at(to),
                    db: shown(db),
                    out: shown(out),
                },
            ),
        decreases args.len() - i,
    {
        let arg = args[i].as_str();
        assert(arg@ == all[i as int]);
        if text::same(arg, "--from") {
            match value(args, i + 1, "--from") {
                Err(error) => return Err(error),
                Ok(raw) => match instant(raw.as_str()) {
                    Err(error) => return Err(error),
                    Ok(at) => from = Some(at),
                },
            }
            i += 2;
        } else if text::same(arg, "--to") {
            match value(args, i + 1, "--to") {
                Err(error) => return Err(error),
                Ok(raw) => match instant(raw.as_str()) {
                    Err(error) => return Err(error),
                    Ok(at) => to = Some(at),
                },
            }
            i += 2;
        } else if text::same(arg, "--db") {
            match value(args, i + 1, "--db") {
                Err(error) => return Err(error),
                Ok(path) => db = Some(path),
            }
            i += 2;
        } else if text::same(arg, "--out") {
            match value(args, i + 1, "--out") {
                Err(error) => return Err(error),
                Ok(path) => out = Some(path),
            }
            i += 2;
        } else {
            return Err(refuse("export", arg));
        }
    }
    match (from, to) {
        (None, _) => Err("export: --from is required".to_owned()),
        (Some(_), None) => Err("export: --to is required".to_owned()),
        (Some(from), Some(to)) => {
            if to.as_millis() < from.as_millis() {
                return Err("export: --to is before --from".to_owned());
            }
            let db = match db {
                Some(path) => path,
                None => DEFAULT_JOURNAL_PATH.to_owned(),
            };
            Ok(Invocation::Export { from, to, db, out })
        },
    }
}

// --- replay --------------------------------------------------------------------

/// What the arguments of a replay have said so far.
pub struct ReplayFlags {
    pub fixture: Option<Seq<char>>,
    pub verify: bool,
    pub overrides: Seq<(Seq<char>, Seq<char>)>,
}

/// A knob and a value, cut at the first `=`.
pub open spec fn knob_of(raw: Seq<char>) -> Answer<(Seq<char>, Seq<char>)> {
    let at = position(raw, '=', 0);
    if at < raw.len() {
        Ok((raw.take(at), raw.skip(at + 1)))
    } else {
        Err("replay: --set wants knob=value, got `"@ + raw + "`"@)
    }
}

/// What the arguments from the `i`th on add.
pub open spec fn replay_flags(args: Seq<Seq<char>>, i: int, flags: ReplayFlags) -> Answer<
    ReplayFlags,
>
    decreases args.len() - i,
{
    if i < 0 || i >= args.len() {
        Ok(flags)
    } else if args[i] == "--verify"@ {
        replay_flags(args, i + 1, ReplayFlags { verify: true, ..flags })
    } else if args[i] == "--set"@ {
        match value_of(args, i + 1, "--set"@) {
            Err(error) => Err(error),
            Ok(raw) => match knob_of(raw) {
                Err(error) => Err(error),
                Ok(knob) => replay_flags(
                    args,
                    i + 2,
                    ReplayFlags { overrides: flags.overrides.push(knob), ..flags },
                ),
            },
        }
    } else if (args[i].len() > 0 && args[i][0] == '-') || flags.fixture is Some {
        Err(unexpected("replay"@, args[i]))
    } else {
        replay_flags(args, i + 1, ReplayFlags { fixture: Some(args[i]), ..flags })
    }
}

pub open spec fn replay_of(args: Seq<Seq<char>>, i: int) -> Answer<Request> {
    match replay_flags(
        args,
        i,
        ReplayFlags { fixture: None, verify: false, overrides: Seq::empty() },
    ) {
        Err(error) => Err(error),
        Ok(ReplayFlags { fixture: None, .. }) => Err("replay: a fixture path is required"@),
        Ok(ReplayFlags { fixture: Some(fixture), verify, overrides }) => Ok(
            Request::Replay { fixture, verify, overrides },
        ),
    }
}

pub open spec fn seen_knob(out: Result<(String, String), String>) -> Answer<
    (Seq<char>, Seq<char>),
> {
    match out {
        Ok(knob) => Ok((knob.0@, knob.1@)),
        Err(error) => Err(error@),
    }
}

/// A knob and a value, cut at the first `=`.
fn knob(raw: &str) -> (out: Result<(String, String), String>)
    ensures
        seen_knob(out) == knob_of(raw@),
{
    let chars = text::chars_of(raw);
    let at = text::find_char(&chars, '=', 0);
    if at < chars.len() {
        assert(raw@.take(at as int) =~= raw@.subrange(0, at as int));
        assert(raw@.skip(at + 1) =~= raw@.subrange(at + 1, raw@.len() as int));
        return Ok((text::piece(&chars, 0, at), text::piece(&chars, at + 1, chars.len())));
    }
    let mut message = "replay: --set wants knob=value, got `".to_owned();
    message.append(raw);
    message.append("`");
    Err(message)
}

fn starts_with_dash(arg: &str) -> (out: bool)
    ensures
        out == (arg@.len() > 0 && arg@[0] == '-'),
{
    let chars = text::chars_of(arg);
    chars.len() > 0 && chars[0] == '-'
}

/// Reads the arguments of a replay, from the `start`th on.
fn parse_replay(args: &Vec<String>, start: usize) -> (out: Result<Invocation, String>)
    requires
        start <= args.len(),
    ensures
        seen_request(out) == replay_of(views(args@), start as int),
{
    let ghost all = views(args@);
    let mut fixture: Option<String> = None;
    let mut verify = false;
    let mut overrides: Vec<(String, String)> = Vec::new();
    let mut i: usize = start;
    proof {
        reveal_strlit("--verify");
        reveal_strlit("--set");
        assert(pairs(overrides@) =~= Seq::<(Seq<char>, Seq<char>)>::empty());
    }
    while i < args.len()
        invariant
            all == views(args@),
            i <= args.len(),
            "--verify"@.len() == 8,
            "--set"@.len() == 5,
            replay_flags(
                all,
                start as int,
                ReplayFlags { fixture: None, verify: false, overrides: Seq::empty() },
            ) == replay_flags(
                all,
                i as int,
                ReplayFlags { fixture: shown(fixture), verify, overrides: pairs(overrides@) },
            ),
        decreases args.len() - i,
    {
        let arg = args[i].as_str();
        assert(arg@ == all[i as int]);
        if text::same(arg, "--verify") {
            verify = true;
            i += 1;
        } else if text::same(arg, "--set") {
            match value(args, i + 1, "--set") {
                Err(error) => return Err(error),
                Ok(raw) => match knob(raw.as_str()) {
                    Err(error) => return Err(error),
                    Ok(knob) => {
                        let ghost so_far = overrides@;
                        let ghost added = (knob.0@, knob.1@);
                        overrides.push(knob);
                        assert(pairs(overrides@) =~= pairs(so_far).push(added));
                    },
                },
            }
            i += 2;
        } else if starts_with_dash(arg) || fixture.is_some() {
            return Err(refuse("replay", arg));
        } else {
            fixture = Some(arg.to_owned());
            i += 1;
        }
    }
    match fixture {
        None => Err("replay: a fixture path is required".to_owned()),
        Some(fixture) => Ok(Invocation::Replay { fixture, verify, overrides }),
    }
}

// --- the whole -----------------------------------------------------------------

/// What a list of arguments asks for, the program's own name left out.
pub open spec fn request_of(args: Seq<Seq<char>>) -> Answer<Request> {
    if args.len() == 0 {
        Ok(Request::Daemon)
    } else if args[0] == "-h"@ || args[0] == "--help"@ || args[0] == "help"@ {
        Ok(Request::Help)
    } else if args[0] == "export"@ {
        export_of(args, 1)
    } else if args[0] == "replay"@ {
        replay_of(args, 1)
    } else {
        Err("unknown command `"@ + args[0] + "`\n\n"@ + HELP@)
    }
}

/// `args` is everything after the program's name.
pub fn parse(args: Vec<String>) -> (out: Result<Invocation, String>)
    ensures
        seen_request(out) == request_of(views(args@)),
{
    if args.len() == 0 {
        return Ok(Invocation::Daemon);
    }
    let first = args[0].as_str();
    assert(first@ == views(args@)[0]);
    proof {
        reveal_strlit("export");
        reveal_strlit("replay");
        reveal_strlit("-h");
        reveal_strlit("--help");
        reveal_strlit("help");
        assert("export"@[0] == 'e');
        assert("replay"@[0] == 'r');
        assert("--help"@[0] == '-');
    }
    if text::same(first, "-h") || text::same(first, "--help") || text::same(first, "help") {
        return Ok(Invocation::Help);
    }
    if text::same(first, "export") {
        return parse_export(&args, 1);
    }
    if text::same(first, "replay") {
        return parse_replay(&args, 1);
    }
    let mut message = "unknown command `".to_owned();
    message.append(first);
    message.append("`\n\n");
    message.append(HELP);
    Err(message)
}

/// Nothing but an empty list of arguments starts the daemon: a mistyped command
/// never does.
pub proof fn only_no_arguments_start_the_daemon(args: Seq<Seq<char>>)
    ensures
        request_of(args) == Ok::<Request, Seq<char>>(Request::Daemon) <==> args.len() == 0,
{
}

/// A range that is exported is never one that ends before it starts.
pub proof fn an_exported_range_is_ordered(args: Seq<Seq<char>>)
    ensures
        request_of(args) matches Ok(Request::Export { from, to, .. }) ==> from <= to,
{
}

// --- laws ----------------------------------------------------------------------

/// An instant in unix milliseconds is that number, as far as it fits.
pub proof fn an_instant_is_read_as_a_number(n: nat)
    ensures
        n <= i64::MAX ==> instant_of(text::decimal(n)) == Ok::<int, Seq<char>>(n as int),
        n > i64::MAX ==> instant_of(text::decimal(n)) is Err,
{
    number::a_written_number_is_read_back(n);
}

/// Anything else is read as a date, and refused where it is none.
pub proof fn an_instant_is_read_as_a_date(raw: Seq<char>, i: int, ms: i64, e: Seq<char>)
    requires
        0 <= i < raw.len(),
        !('0' <= raw[i] <= '9'),
    ensures
        rfc3339(raw) == Ok::<i64, Seq<char>>(ms) ==> instant_of(raw) == Ok::<int, Seq<char>>(
            ms as int,
        ),
        rfc3339(raw) == Err::<i64, Seq<char>>(e) ==> instant_of(raw) == Err::<int, Seq<char>>(
            "`"@ + raw + "` is neither unix milliseconds nor RFC 3339: "@ + e,
        ),
{
    assert(!is_digit(raw[i]));
}

proof fn export_flags_differ()
    ensures
        "--from"@ != "--to"@,
        "--from"@ != "--db"@,
        "--from"@ != "--out"@,
        "--to"@ != "--db"@,
        "--to"@ != "--out"@,
        "--db"@ != "--out"@,
{
    reveal_strlit("--from");
    reveal_strlit("--to");
    reveal_strlit("--db");
    reveal_strlit("--out");
    assert("--from"@.len() == 6 && "--to"@.len() == 4 && "--out"@.len() == 5);
    assert("--to"@[2] == 't' && "--db"@[2] == 'd');
}

/// Each flag of an export sets what it names to the value behind it, and nothing else.
pub proof fn a_flag_of_an_export_sets_its_own(
    args: Seq<Seq<char>>,
    i: int,
    flags: ExportFlags,
    at: int,
)
    requires
        0 <= i,
        i + 1 < args.len(),
    ensures
        args[i] == "--from"@ && instant_of(args[i + 1]) == Ok::<int, Seq<char>>(at)
            ==> export_flags(args, i, flags) == export_flags(
            args,
            i + 2,
            ExportFlags { from: Some(at), to: flags.to, db: flags.db, out: flags.out },
        ),
        args[i] == "--to"@ && instant_of(args[i + 1]) == Ok::<int, Seq<char>>(at) ==> export_flags(
            args,
            i,
            flags,
        ) == export_flags(
            args,
            i + 2,
            ExportFlags { from: flags.from, to: Some(at), db: flags.db, out: flags.out },
        ),
        args[i] == "--db"@ ==> export_flags(args, i, flags) == export_flags(
            args,
            i + 2,
            ExportFlags { from: flags.from, to: flags.to, db: Some(args[i + 1]), out: flags.out },
        ),
        args[i] == "--out"@ ==> export_flags(args, i, flags) == export_flags(
            args,
            i + 2,
            ExportFlags { from: flags.from, to: flags.to, db: flags.db, out: Some(args[i + 1]) },
        ),
{
    export_flags_differ();
}

/// A flag without its value is refused, and so is what is no flag.
pub proof fn a_flag_wants_its_value(args: Seq<Seq<char>>, i: int, flags: ExportFlags)
    requires
        0 <= i < args.len(),
    ensures
        i + 1 == args.len() && seq!["--from"@, "--to"@, "--db"@, "--out"@].contains(args[i])
            ==> export_flags(args, i, flags) == Err::<ExportFlags, Seq<char>>(
            args[i] + " wants a value"@,
        ),
        args[i] != "--from"@ && args[i] != "--to"@ && args[i] != "--db"@ && args[i] != "--out"@
            ==> export_flags(args, i, flags) == Err::<ExportFlags, Seq<char>>(
            "export"@ + ": unexpected argument `"@ + args[i] + "`"@,
        ),
{
}

/// An export is of the range between its two instants, out of the journal that it names or
/// the usual one, into the file that it names if it names one.
pub proof fn an_export_is_of_its_range(
    from: Seq<char>,
    to: Seq<char>,
    db: Seq<char>,
    out: Seq<char>,
    a: int,
    b: int,
)
    requires
        instant_of(from) == Ok::<int, Seq<char>>(a),
        instant_of(to) == Ok::<int, Seq<char>>(b),
    ensures
        a <= b ==> request_of(seq!["export"@, "--from"@, from, "--to"@, to]) == Ok::<
            Request,
            Seq<char>,
        >(Request::Export { from: a, to: b, db: "/var/lib/zendure/journal.db"@, out: None }),
        b < a ==> request_of(seq!["export"@, "--from"@, from, "--to"@, to]) == Err::<
            Request,
            Seq<char>,
        >("export: --to is before --from"@),
        request_of(seq!["export"@, "--to"@, to]) == Err::<Request, Seq<char>>(
            "export: --from is required"@,
        ),
        request_of(seq!["export"@, "--from"@, from]) == Err::<Request, Seq<char>>(
            "export: --to is required"@,
        ),
        a <= b ==> request_of(
            seq!["export"@, "--out"@, out, "--to"@, to, "--db"@, db, "--from"@, from],
        ) == Ok::<Request, Seq<char>>(Request::Export { from: a, to: b, db, out: Some(out) }),
{
    export_flags_differ();
    reveal_strlit("export");
    reveal_strlit("replay");
    reveal_strlit("-h");
    reveal_strlit("--help");
    reveal_strlit("help");
    assert("export"@[0] == 'e' && "-h"@.len() == 2 && "--help"@[0] == '-' && "help"@.len() == 4);
    reveal_with_fuel(export_flags, 6);
}

proof fn commands_differ()
    ensures
        "export"@ != "replay"@,
        "export"@ != "-h"@,
        "export"@ != "--help"@,
        "export"@ != "help"@,
        "replay"@ != "-h"@,
        "replay"@ != "--help"@,
        "replay"@ != "help"@,
{
    reveal_strlit("export");
    reveal_strlit("replay");
    reveal_strlit("-h");
    reveal_strlit("--help");
    reveal_strlit("help");
    assert("export"@[0] == 'e' && "-h"@.len() == 2 && "--help"@[0] == '-' && "help"@.len() == 4);
    assert("replay"@[0] == 'r');
}

/// A command is told by its first word: help under three of them, and a word that is none
/// is refused by name.
pub proof fn a_command_is_told_by_its_first_word(args: Seq<Seq<char>>)
    requires
        args.len() > 0,
    ensures
        args[0] == "help"@ || args[0] == "--help"@ || args[0] == "-h"@ ==> request_of(args)
            == Ok::<Request, Seq<char>>(Request::Help),
        args[0] == "export"@ ==> request_of(args) == export_of(args, 1),
        args[0] == "replay"@ ==> request_of(args) == replay_of(args, 1),
        !seq!["help"@, "--help"@, "-h"@, "export"@, "replay"@].contains(args[0]) ==> request_of(
            args,
        ) == Err::<Request, Seq<char>>("unknown command `"@ + args[0] + "`\n\n"@ + HELP@),
{
    commands_differ();
    let all = seq!["help"@, "--help"@, "-h"@, "export"@, "replay"@];
    assert(all[0] == "help"@ && all[1] == "--help"@ && all[2] == "-h"@);
    assert(all[3] == "export"@ && all[4] == "replay"@);
}

/// A knob is what stands before the first equals sign, and its value all that stands
/// behind it.
pub proof fn a_knob_is_cut_at_the_first_equals_sign(name: Seq<char>, value: Seq<char>)
    requires
        forall|i: int| 0 <= i < name.len() ==> name[i] != '=',
    ensures
        knob_of(name + seq!['='] + value) == Ok::<(Seq<char>, Seq<char>), Seq<char>>((name, value)),
        knob_of(name) == Err::<(Seq<char>, Seq<char>), Seq<char>>(
            "replay: --set wants knob=value, got `"@ + name + "`"@,
        ),
{
    let whole = name + seq!['='] + value;
    let at = name.len() as int;
    text::position_found(whole, '=', 0, at);
    text::position_found(name, '=', 0, at);
    assert(whole.take(at) =~= name);
    assert(whole.skip(at + 1) =~= value);
}

proof fn replay_flags_differ()
    ensures
        "--verify"@ != "--set"@,
        "--verify"@[0] == '-',
        "--set"@[0] == '-',
{
    reveal_strlit("--verify");
    reveal_strlit("--set");
    assert("--verify"@.len() == 8 && "--set"@.len() == 5);
}

/// Each argument of a replay does its own: a flag to verify, a knob to set behind those
/// before it, and one fixture.
pub proof fn an_argument_of_a_replay_does_its_own(
    args: Seq<Seq<char>>,
    i: int,
    flags: ReplayFlags,
    knob: (Seq<char>, Seq<char>),
)
    requires
        0 <= i < args.len(),
    ensures
        args[i] == "--verify"@ ==> replay_flags(args, i, flags) == replay_flags(
            args,
            i + 1,
            ReplayFlags { fixture: flags.fixture, verify: true, overrides: flags.overrides },
        ),
        args[i] == "--set"@ && i + 1 < args.len() && knob_of(args[i + 1]) == Ok::<
            (Seq<char>, Seq<char>),
            Seq<char>,
        >(knob) ==> replay_flags(args, i, flags) == replay_flags(
            args,
            i + 2,
            ReplayFlags {
                fixture: flags.fixture,
                verify: flags.verify,
                overrides: flags.overrides.push(knob),
            },
        ),
        args[i].len() > 0 && args[i][0] != '-' && flags.fixture is None ==> replay_flags(
            args,
            i,
            flags,
        ) == replay_flags(
            args,
            i + 1,
            ReplayFlags {
                fixture: Some(args[i]),
                verify: flags.verify,
                overrides: flags.overrides,
            },
        ),
        args[i].len() > 0 && args[i][0] != '-' && flags.fixture is Some ==> replay_flags(
            args,
            i,
            flags,
        ) == Err::<ReplayFlags, Seq<char>>(
            "replay"@ + ": unexpected argument `"@ + args[i] + "`"@,
        ),
        args[i].len() > 0 && args[i][0] == '-' && args[i] != "--verify"@ && args[i] != "--set"@
            ==> replay_flags(args, i, flags) == Err::<ReplayFlags, Seq<char>>(
            "replay"@ + ": unexpected argument `"@ + args[i] + "`"@,
        ),
{
    replay_flags_differ();
}

/// A replay is of its fixture, with the knobs that were set, in their order.
pub proof fn a_replay_is_of_its_fixture(
    fixture: Seq<char>,
    first: Seq<char>,
    second: Seq<char>,
    a: (Seq<char>, Seq<char>),
    b: (Seq<char>, Seq<char>),
)
    requires
        fixture.len() > 0,
        fixture[0] != '-',
        knob_of(first) == Ok::<(Seq<char>, Seq<char>), Seq<char>>(a),
        knob_of(second) == Ok::<(Seq<char>, Seq<char>), Seq<char>>(b),
    ensures
        request_of(seq!["replay"@, fixture]) == Ok::<Request, Seq<char>>(
            Request::Replay { fixture, verify: false, overrides: Seq::empty() },
        ),
        request_of(seq!["replay"@, fixture, "--verify"@]) == Ok::<Request, Seq<char>>(
            Request::Replay { fixture, verify: true, overrides: Seq::empty() },
        ),
        request_of(seq!["replay"@, "--set"@, first, "--set"@, second, fixture]) == Ok::<
            Request,
            Seq<char>,
        >(Request::Replay { fixture, verify: false, overrides: seq![a, b] }),
        request_of(seq!["replay"@]) == Err::<Request, Seq<char>>(
            "replay: a fixture path is required"@,
        ),
{
    commands_differ();
    replay_flags_differ();
    reveal_with_fuel(replay_flags, 5);
    assert(Seq::<(Seq<char>, Seq<char>)>::empty().push(a).push(b) =~= seq![a, b]);
}

} // verus!
