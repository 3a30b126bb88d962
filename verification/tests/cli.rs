//! What the command line asks for.

use zendure::cli::{date, instant, parse, Invocation, HELP};
use zendure::config::DEFAULT_JOURNAL_PATH;
use zendure::units::Timestamp;

fn parse_args(args: &[&str]) -> Result<Invocation, String> {
    parse(args.iter().map(|s| s.to_string()).collect())
}

#[test]
fn no_arguments_runs_the_daemon() {
    assert_eq!(parse_args(&[]), Ok(Invocation::Daemon));
}

#[test]
fn export_takes_a_range_and_defaults_the_database() {
    assert_eq!(
        parse_args(&["export", "--from", "1000", "--to", "2000"]),
        Ok(Invocation::Export {
            from: Timestamp::from_millis(1000),
            to: Timestamp::from_millis(2000),
            db: DEFAULT_JOURNAL_PATH.to_string(),
            out: None,
        })
    );
}

#[test]
fn export_accepts_rfc3339_and_millis_interchangeably() {
    let Ok(Invocation::Export { from, to, .. }) = parse_args(&[
        "export",
        "--from",
        "2026-09-12T19:50:00Z",
        "--to",
        "1789242600000",
    ]) else {
        panic!("should parse");
    };
    assert_eq!(from, Timestamp::from_millis(1_789_242_600_000));
    assert_eq!(to, Timestamp::from_millis(1_789_242_600_000));
}

#[test]
fn export_requires_both_ends_and_an_ordered_range() {
    assert!(parse_args(&["export", "--to", "2000"]).is_err());
    assert!(parse_args(&["export", "--from", "1000"]).is_err());
    assert!(parse_args(&["export", "--from", "2000", "--to", "1000"]).is_err());
}

#[test]
fn replay_collects_overrides() {
    assert_eq!(
        parse_args(&["replay", "f.json", "--verify", "--set", "min_soc=40"]),
        Ok(Invocation::Replay {
            fixture: "f.json".to_string(),
            verify: true,
            overrides: vec![("min_soc".to_string(), "40".to_string())],
        })
    );
}

/// `--set` without an `=` is a typo, and guessing at it would answer another
/// question than the one asked.
#[test]
fn replay_rejects_a_malformed_override() {
    assert!(parse_args(&["replay", "f.json", "--set", "min_soc"]).is_err());
}

#[test]
fn replay_needs_a_fixture() {
    assert!(parse_args(&["replay"]).is_err());
    assert!(parse_args(&["replay", "a.json", "b.json"]).is_err());
}

#[test]
fn an_unknown_command_is_not_silently_the_daemon() {
    let err = parse_args(&["expport"]).unwrap_err();
    assert!(err.contains("unknown command"), "{err}");
}

#[test]
fn help_is_asked_for_the_three_usual_ways() {
    for arg in ["-h", "--help", "help"] {
        assert_eq!(parse_args(&[arg]), Ok(Invocation::Help), "{arg}");
    }
}

#[test]
fn the_help_names_both_commands() {
    assert!(HELP.contains("export"));
    assert!(HELP.contains("replay"));
}

#[test]
fn export_takes_its_database_and_its_output() {
    let Ok(Invocation::Export { db, out, .. }) = parse_args(&[
        "export", "--from", "1", "--to", "1", "--db", "j.db", "--out", "o.json",
    ]) else {
        panic!("should parse");
    };
    assert_eq!(db, "j.db");
    assert_eq!(out.as_deref(), Some("o.json"));
    assert!(parse_args(&["export", "--from"]).is_err());
    assert!(parse_args(&["export", "--frm", "1"]).is_err());
}

#[test]
fn an_instant_is_millis_or_a_date() {
    assert_eq!(instant("5"), Ok(Timestamp::from_millis(5)));
    assert!(instant("-5").is_err());
    assert_eq!(instant("1970-01-01T00:00:01.5Z"), Ok(Timestamp::from_millis(1500)));
    assert_eq!(instant("1970-01-01T01:00:00+01:00"), Ok(Timestamp::from_millis(0)));
    assert!(instant("yesterday").unwrap_err().contains("yesterday"));
    assert!(instant("99999999999999999999").is_err());
    assert_eq!(date("x", Ok(7)), Ok(Timestamp::from_millis(7)));
    assert!(date("x", Err("bad".to_string())).unwrap_err().contains("bad"));
}
