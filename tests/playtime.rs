use std::str::FromStr;

use playtime::config::{App, Config, RunOutcome, Session};
use playtime::error::Error;
use playtime::span::{format_hms, format_span, Span};
use playtime::zoned::{format_zoned, ZonedTime};

fn zoned(text: &str) -> ZonedTime {
    let zoned = jiff::Zoned::from_str(text).unwrap();
    ZonedTime {
        instant: zoned.timestamp().as_nanosecond(),
        year: zoned.year(),
        month: zoned.month(),
        day: zoned.day(),
        hour: zoned.hour(),
        minute: zoned.minute(),
        abbreviation: zoned.time_zone().to_offset(zoned.timestamp()).2.to_string(),
        zoned,
    }
}

fn span(hours: i32, minutes: i64, seconds: i64) -> Span {
    Span { hours, minutes, seconds, ..Span::zero() }
}

fn session(text: &str, duration: Span) -> Session {
    Session { timestamp: zoned(text), duration }
}

fn app_with(name: &str, sessions: Vec<Session>) -> App {
    App { name: name.to_string(), exe: format!("/usr/bin/{}", name), sessions }
}

fn names(config: &Config) -> Vec<String> {
    config.apps.iter().map(|a| a.name.clone()).collect()
}

#[test]
fn test_format_zoned() {
    let zoned = zoned("2024-08-10T23:14:00-04:00[America/New_York]");
    assert_eq!(format_zoned(&zoned), "2024-08-10 at 23:14 EDT".to_string());
}

#[test]
fn test_format_span() {
    let span = Span { minutes: 124, ..Span::zero() };
    assert_eq!(format_span(&span).unwrap(), "02h 04m 00s".to_string());
}

#[test]
fn format_span_carries_seconds_and_days() {
    let span = Span { days: 1, seconds: 3725, ..Span::zero() };
    assert_eq!(format_span(&span).unwrap(), "25h 02m 05s".to_string());
}

#[test]
fn format_hms_pads_and_signs() {
    assert_eq!(format_hms(0, 0, 0), "00h 00m 00s".to_string());
    assert_eq!(format_hms(123, 9, 59), "123h 09m 59s".to_string());
    assert_eq!(format_hms(-1, -5, -30), "-1h -5m -30s".to_string());
}

#[test]
fn add_then_find_gives_new_app() {
    let mut config = Config::default();
    config.add("game".to_string(), "/usr/bin/game".to_string()).unwrap();
    let app = config.find(&"game".to_string()).unwrap();
    assert_eq!(app.name, "game");
    assert_eq!(app.exe, "/usr/bin/game");
    assert!(app.sessions.is_empty());
}

#[test]
fn add_existing_name_fails_and_keeps_registry() {
    let mut config = Config::default();
    config.add("game".to_string(), "/a".to_string()).unwrap();
    let r = config.add("game".to_string(), "/b".to_string());
    assert!(matches!(r, Err(Error::AppExists(ref n)) if n == "game"));
    assert_eq!(names(&config), vec!["game".to_string()]);
    assert_eq!(config.apps[0].exe, "/a");
}

#[test]
fn names_are_case_sensitive() {
    let mut config = Config::default();
    config.add("game".to_string(), "/a".to_string()).unwrap();
    config.add("Game".to_string(), "/b".to_string()).unwrap();
    assert_eq!(names(&config), vec!["game".to_string(), "Game".to_string()]);
}

#[test]
fn remove_absent_name_fails_and_keeps_registry() {
    let mut config = Config::default();
    config.add("game".to_string(), "/a".to_string()).unwrap();
    let r = config.remove(&"other".to_string());
    assert!(matches!(r, Err(Error::AppNotFound(ref n)) if n == "other"));
    assert_eq!(names(&config), vec!["game".to_string()]);
}

#[test]
fn remove_then_find_fails() {
    let mut config = Config::default();
    config.add("a".to_string(), "/a".to_string()).unwrap();
    config.add("b".to_string(), "/b".to_string()).unwrap();
    config.remove(&"a".to_string()).unwrap();
    assert!(matches!(config.find(&"a".to_string()), Err(Error::AppNotFound(_))));
    assert_eq!(names(&config), vec!["b".to_string()]);
}

#[test]
fn total_time_of_no_sessions_is_zero() {
    let app = app_with("game", vec![]);
    assert_eq!(app.time().unwrap(), Span::zero());
}

#[test]
fn total_time_adds_every_session() {
    let app = app_with(
        "game",
        vec![
            session("2024-08-01T10:00:00+00:00[UTC]", span(1, 30, 0)),
            session("2024-08-02T10:00:00+00:00[UTC]", span(0, 45, 10)),
        ],
    );
    assert_eq!(app.time().unwrap(), span(2, 15, 10));
}

#[test]
fn total_time_is_the_same_in_either_order() {
    let a = session("2024-08-01T10:00:00+00:00[UTC]", span(0, 50, 40));
    let b = session("2024-08-02T10:00:00+00:00[UTC]", span(3, 20, 30));
    let c = session("2024-08-01T10:00:00+00:00[UTC]", span(0, 50, 40));
    let d = session("2024-08-02T10:00:00+00:00[UTC]", span(3, 20, 30));
    let first = app_with("x", vec![a, b]).time().unwrap();
    let second = app_with("x", vec![d, c]).time().unwrap();
    assert_eq!(first, second);
    assert_eq!(first, span(4, 11, 10));
}

#[test]
fn total_time_overflow_is_an_error() {
    let big = Span { hours: 175_307_616, ..Span::zero() };
    let app = app_with(
        "game",
        vec![
            session("2024-08-01T10:00:00+00:00[UTC]", big),
            session("2024-08-02T10:00:00+00:00[UTC]", big),
        ],
    );
    assert!(app.time().is_err());
    let config = Config { apps: vec![app] };
    let cutoff = zoned("2024-07-01T00:00:00+00:00[UTC]");
    assert!(matches!(config.list(&cutoff), Err(Error::Span(_))));
}

#[test]
fn time_since_is_strictly_after_the_cutoff() {
    let app = app_with(
        "game",
        vec![
            session("2024-08-01T10:00:00+00:00[UTC]", span(1, 0, 0)),
            session("2024-08-05T10:00:00+00:00[UTC]", span(0, 20, 0)),
            session("2024-08-06T10:00:00+00:00[UTC]", span(0, 30, 0)),
        ],
    );
    let cutoff = zoned("2024-08-05T10:00:00+00:00[UTC]");
    assert_eq!(app.time_since(cutoff).unwrap(), span(0, 30, 0));
    let earlier = zoned("2024-08-05T09:59:59+00:00[UTC]");
    assert_eq!(app.time_since(earlier).unwrap(), span(0, 50, 0));
}

#[test]
fn time_since_compares_instants_across_zones() {
    let app = app_with("game", vec![session("2024-08-05T12:00:00+02:00[Europe/Berlin]", span(0, 10, 0))]);
    let same_instant = zoned("2024-08-05T06:00:00-04:00[America/New_York]");
    assert_eq!(app.time_since(same_instant).unwrap(), Span::zero());
    let just_before = zoned("2024-08-05T05:59:59-04:00[America/New_York]");
    assert_eq!(app.time_since(just_before).unwrap(), span(0, 10, 0));
}

#[test]
fn list_reports_total_and_recent() {
    let mut config = Config::default();
    config.apps.push(app_with(
        "game",
        vec![
            session("2024-08-01T10:00:00+00:00[UTC]", span(1, 0, 0)),
            session("2024-08-09T10:00:00+00:00[UTC]", span(0, 15, 0)),
        ],
    ));
    config.apps.push(app_with("idle", vec![]));
    let now = zoned("2024-08-10T10:00:00+00:00[UTC]");
    let cutoff = playtime::config::recent_cutoff(&now).unwrap();
    assert_eq!(now.instant - cutoff.instant, 7 * 86_400_000_000_000);
    let rows = config.list(&cutoff).unwrap();
    assert_eq!(rows.len(), 2);
    assert_eq!(rows[0].name, "game");
    assert_eq!(rows[0].exe, "/usr/bin/game");
    assert_eq!(rows[0].total, span(1, 15, 0));
    assert_eq!(rows[0].recent, span(0, 15, 0));
    assert_eq!(rows[1].total, Span::zero());
    assert_eq!(rows[1].recent, Span::zero());
}

#[test]
fn recent_cutoff_keeps_wall_clock_across_dst() {
    let now = zoned("2024-11-05T12:00:00-05:00[America/New_York]");
    let cutoff = playtime::config::recent_cutoff(&now).unwrap();
    assert_eq!(format_zoned(&cutoff), "2024-10-29 at 12:00 EDT".to_string());
    assert_eq!(now.instant - cutoff.instant, (7 * 24 + 1) * 3_600_000_000_000);
}

#[test]
fn sessions_lists_in_recorded_order() {
    let mut config = Config::default();
    config.apps.push(app_with(
        "game",
        vec![
            session("2024-08-10T23:14:00-04:00[America/New_York]", span(0, 124, 0)),
            session("2024-08-11T09:05:00-04:00[America/New_York]", span(0, 0, 61)),
        ],
    ));
    let lines = config.sessions(&"game".to_string()).unwrap();
    assert_eq!(lines.len(), 2);
    assert_eq!(lines[0].played_on, "2024-08-10 at 23:14 EDT");
    assert_eq!(lines[0].duration, "02h 04m 00s");
    assert_eq!(lines[1].played_on, "2024-08-11 at 09:05 EDT");
    assert_eq!(lines[1].duration, "00h 01m 01s");
    config.add("empty".to_string(), "/e".to_string()).unwrap();
    assert!(config.sessions(&"empty".to_string()).unwrap().is_empty());
    assert!(matches!(config.sessions(&"nope".to_string()), Err(Error::AppNotFound(_))));
}

#[test]
fn short_run_is_not_recorded() {
    let mut config = Config::default();
    config.add("game".to_string(), "/g".to_string()).unwrap();
    let began = zoned("2024-08-10T10:00:00+00:00[UTC]");
    let ended = zoned("2024-08-10T10:00:00.999+00:00[UTC]");
    let r = config.record_run(&"game".to_string(), began, &ended).unwrap();
    match r {
        RunOutcome::TooShort(d) => assert_eq!(d, Span { milliseconds: 999, ..Span::zero() }),
        RunOutcome::Recorded(_) => panic!("a run under a second was recorded"),
    }
    assert!(config.apps[0].sessions.is_empty());
}

#[test]
fn long_run_appends_one_session() {
    let mut config = Config::default();
    config.add("game".to_string(), "/g".to_string()).unwrap();
    config.add("other".to_string(), "/o".to_string()).unwrap();
    let began = zoned("2024-08-10T10:00:00+00:00[UTC]");
    let start_instant = began.instant;
    let ended = zoned("2024-08-10T11:30:01+00:00[UTC]");
    let r = config.record_run(&"game".to_string(), began, &ended).unwrap();
    assert!(matches!(r, RunOutcome::Recorded(d) if d == span(1, 30, 1)));
    assert_eq!(config.apps[0].sessions.len(), 1);
    assert_eq!(config.apps[0].sessions[0].timestamp.instant, start_instant);
    assert_eq!(config.apps[0].sessions[0].duration, span(1, 30, 1));
    assert!(config.apps[1].sessions.is_empty());
}

#[test]
fn run_of_exactly_one_second_is_recorded() {
    let mut config = Config::default();
    config.add("game".to_string(), "/g".to_string()).unwrap();
    let began = zoned("2024-08-10T10:00:00+00:00[UTC]");
    let ended = zoned("2024-08-10T10:00:01+00:00[UTC]");
    let r = config.record_run(&"game".to_string(), began, &ended).unwrap();
    assert!(matches!(r, RunOutcome::Recorded(d) if d == span(0, 0, 1)));
    assert_eq!(config.apps[0].sessions.len(), 1);
}

#[test]
fn run_of_unknown_app_fails() {
    let mut config = Config::default();
    let began = zoned("2024-08-10T10:00:00+00:00[UTC]");
    let ended = zoned("2024-08-10T11:00:00+00:00[UTC]");
    let r = config.record_run(&"ghost".to_string(), began, &ended);
    assert!(matches!(r, Err(Error::AppNotFound(ref n)) if n == "ghost"));
}

#[test]
fn format_zoned_pads_every_field() {
    let mut z = zoned("0005-01-02T03:04:00+00:00[UTC]");
    assert_eq!(format_zoned(&z), "0005-01-02 at 03:04 UTC".to_string());
    z.year = -44;
    assert_eq!(format_zoned(&z), "-0044-01-02 at 03:04 UTC".to_string());
}

#[test]
fn format_span_out_of_range_is_an_error() {
    let span = Span { days: 7_304_484, hours: 23, ..Span::zero() };
    assert!(matches!(format_span(&span), Err(Error::Span(_))));
}
