//! Points in time with a time zone, compared by the instant they name.
use crate::span::{balanced_to_hours, decimal, push_decimal, push_two_wide, two_wide, Span};
use jiff::Span as JSpan;
use vstd::prelude::*;

verus! {

/// `jiff::Zoned`, held unopened beside the plain values read from it.
#[verifier::external_type_specification]
#[verifier::external_body]
pub struct ExZoned(jiff::Zoned);

/// A zoned point in time. `instant` is the nanoseconds since the Unix epoch of
/// `zoned`, and the civil fields are its wall-clock date and time with the
/// abbreviation of its time zone there; the logic compares and subtracts
/// instants and displays the civil fields, while `zoned` keeps the time zone
/// for calendar arithmetic and storage.
#[derive(Debug)]
pub struct ZonedTime {
    pub instant: i128,
    pub year: i16,
    pub month: i8,
    pub day: i8,
    pub hour: i8,
    pub minute: i8,
    pub abbreviation: String,
    pub zoned: jiff::Zoned,
}

/// Least nanosecond instant that jiff accepts.
pub const MIN_INSTANT: i128 = -377_705_023_201_000_000_000;

/// Greatest nanosecond instant that jiff accepts.
pub const MAX_INSTANT: i128 = 253_402_207_200_999_999_999;

/// One week in nanoseconds.
pub const WEEK_NANOS: i128 = 604_800_000_000_000;

/// The most that two time zone offsets (each within 25:59:59) can differ by,
/// in nanoseconds.
pub const OFFSET_SPREAD_NANOS: i128 = 187_198_000_000_000;

/// jiff can hold the instant `t`.
pub open spec fn in_instant_range(t: int) -> bool {
    MIN_INSTANT <= t <= MAX_INSTANT
}

/// Relies on `jiff::Timestamp::until` with hours as the largest unit, which is
/// what `jiff::Zoned::until` does by default: the difference of the two
/// instants spread over hours down to nanoseconds. It fails only where an
/// instant lies outside jiff's range.
#[verifier::external_body]
pub(crate) fn instant_until(start: i128, end: i128) -> (r: Result<Span, jiff::Error>)
    ensures
        r matches Ok(v) ==> balanced_to_hours(v, end - start) && v.wf(),
        in_instant_range(start as int) && in_instant_range(end as int) ==> r is Ok,
{
    let a = jiff::Timestamp::from_nanosecond(start)?;
    let b = jiff::Timestamp::from_nanosecond(end)?;
    let s = a.until((jiff::Unit::Hour, b))?;
    Ok(Span { days: s.get_days(), hours: s.get_hours(), minutes: s.get_minutes(),
        seconds: s.get_seconds(), milliseconds: s.get_milliseconds(),
        microseconds: s.get_microseconds(), nanoseconds: s.get_nanoseconds() })
}

/// Relies on `jiff::Zoned::checked_sub` with a span of seven days, applied to
/// the instant `z.instant` in the time zone of `z.zoned`: the same wall-clock
/// time a week earlier, resolved in that zone. The two offsets differ by at
/// most twice 25:59:59, and away from the least instant it cannot fail.
#[verifier::external_body]
pub(crate) fn week_before(z: &ZonedTime) -> (r: Result<ZonedTime, jiff::Error>)
    ensures
        r matches Ok(c) ==> WEEK_NANOS - OFFSET_SPREAD_NANOS <= z.instant - c.instant
            <= WEEK_NANOS + OFFSET_SPREAD_NANOS,
        r matches Ok(c) ==> in_instant_range(c.instant as int),
        in_instant_range(z.instant as int) && MIN_INSTANT + 2 * WEEK_NANOS <= z.instant ==> r is Ok,
{
    let w = jiff::Timestamp::from_nanosecond(z.instant)?.to_zoned(z.zoned.time_zone().clone())
        .checked_sub(JSpan::new().days(7))?;
    Ok(ZonedTime { instant: w.timestamp().as_nanosecond(), year: w.year(), month: w.month(),
        day: w.day(), hour: w.hour(), minute: w.minute(),
        abbreviation: w.time_zone().to_offset(w.timestamp()).2.to_string(), zoned: w })
}

/// `n` written in decimal, zero-padded to four digits, with a leading minus
/// sign when negative.
pub open spec fn four_wide(n: int) -> Seq<char> {
    let m = if n < 0 { -n } else { n };
    (if n < 0 { seq!['-'] } else { seq![] }) + (if m < 1000 { seq!['0'] } else { seq![] }) + (if m < 100 { seq!['0'] } else { seq![] }) + (if m < 10 { seq!['0'] } else { seq![] }) + decimal(m as nat)
}

/// The text `YYYY-MM-DD at HH:MM ZONE`.
pub open spec fn zoned_text(z: ZonedTime) -> Seq<char> {
    four_wide(z.year as int) + seq!['-'] + two_wide(z.month as int) + seq!['-'] + two_wide(
        z.day as int,
    ) + seq![' ', 'a', 't', ' '] + two_wide(z.hour as int) + seq![':'] + two_wide(
        z.minute as int,
    ) + seq![' '] + z.abbreviation@
}

fn push_four_wide(out: &mut String, n: i16)
    ensures
        final(out)@ == old(out)@ + four_wide(n as int),
{
    let ghost start = out@;
    let m: u64 = if n < 0 { (-(n as i32)) as u64 } else { n as u64 };
    proof { reveal_strlit("-"); reveal_strlit("0"); }
    if n < 0 {
        out.append("-");
    }
    let ghost s1 = out@;
    if m < 1000 {
        out.append("0");
    }
    let ghost s2 = out@;
    if m < 100 {
        out.append("0");
    }
    let ghost s3 = out@;
    if m < 10 {
        out.append("0");
    }
    let ghost s4 = out@;
    push_decimal(out, m);
    assert(out@ =~= start + four_wide(n as int));
}

/// Displays a zoned time as `YYYY-MM-DD at HH:MM ZONE`.
pub fn format_zoned(z: &ZonedTime) -> (r: String)
    ensures
        r@ == zoned_text(*z),
{
    let mut out = String::new();
    push_four_wide(&mut out, z.year);
    proof { reveal_strlit("-"); reveal_strlit(" at "); reveal_strlit(":"); reveal_strlit(" "); }
    out.append("-");
    push_two_wide(&mut out, z.month as i64);
    out.append("-");
    push_two_wide(&mut out, z.day as i64);
    out.append(" at ");
    push_two_wide(&mut out, z.hour as i64);
    out.append(":");
    push_two_wide(&mut out, z.minute as i64);
    out.append(" ");
    out.append(z.abbreviation.as_str());
    assert(out@ =~= zoned_text(*z));
    out
}

} // verus!
