//! Spans of time measured in the invariant units (days of 24 hours down to
//! nanoseconds), their checked sum, and their display as hours, minutes and
//! seconds.
use crate::error::Error;
use jiff::Span as JSpan;
use vstd::arithmetic::div_mod::{lemma_div_denominator, lemma_div_pos_is_pos};
use vstd::prelude::*;

verus! {

/// A span of time. All non-zero units share one sign in a well-formed span.
#[derive(Debug, Clone, Copy, PartialEq, Eq, Structural)]
pub struct Span {
    pub days: i32,
    pub hours: i32,
    pub minutes: i64,
    pub seconds: i64,
    pub milliseconds: i64,
    pub microseconds: i64,
    pub nanoseconds: i64,
}

pub const NANOS_PER_SECOND: i128 = 1_000_000_000;

/// Division that rounds toward zero.
pub open spec fn trunc_div(a: int, b: int) -> int {
    if a >= 0 {
        a / b
    } else {
        -((-a) / b)
    }
}

/// The remainder that goes with `trunc_div`: it takes the sign of `a`.
pub open spec fn trunc_rem(a: int, b: int) -> int {
    a - b * trunc_div(a, b)
}

/// Whole hours in `t` nanoseconds.
pub open spec fn hours_of(t: int) -> int {
    trunc_div(t, 3_600_000_000_000)
}

/// Minutes past the whole hours in `t` nanoseconds.
pub open spec fn minutes_of(t: int) -> int {
    trunc_rem(trunc_div(t, 60_000_000_000), 60)
}

/// Seconds past the whole minutes in `t` nanoseconds.
pub open spec fn seconds_of(t: int) -> int {
    trunc_rem(trunc_div(t, 1_000_000_000), 60)
}

/// `s` is the span of `t` nanoseconds spread over the units from hours down,
/// each unit below hours kept under its carry limit.
pub open spec fn balanced_to_hours(s: Span, t: int) -> bool {
    &&& s.days == 0
    &&& s.hours == hours_of(t)
    &&& s.minutes == minutes_of(t)
    &&& s.seconds == seconds_of(t)
    &&& s.milliseconds == trunc_rem(trunc_div(t, 1_000_000), 1000)
    &&& s.microseconds == trunc_rem(trunc_div(t, 1000), 1000)
    &&& s.nanoseconds == trunc_rem(t, 1000)
}

/// Every unit lies within the range that jiff allows for it.
pub open spec fn in_jiff_range(s: Span) -> bool {
    &&& -7_304_484 <= s.days <= 7_304_484
    &&& -175_307_616 <= s.hours <= 175_307_616
    &&& -10_518_456_960 <= s.minutes <= 10_518_456_960
    &&& -631_107_417_600 <= s.seconds <= 631_107_417_600
    &&& -631_107_417_600_000 <= s.milliseconds <= 631_107_417_600_000
    &&& -631_107_417_600_000_000 <= s.microseconds <= 631_107_417_600_000_000
    &&& -0x7fff_ffff_ffff_ffff <= s.nanoseconds
}

/// The span can be carried up to hours: it is well formed, each unit is in
/// range, and its whole hours fit jiff's range of hours.
pub open spec fn displayable(s: Span) -> bool {
    &&& s.wf()
    &&& in_jiff_range(s)
    &&& -175_307_616 <= hours_of(s.nanos()) <= 175_307_616
}

proof fn lemma_trunc_div_nested(t: int, a: int, b: int)
    requires
        a > 0,
        b > 0,
    ensures
        trunc_div(trunc_div(t, a), b) == trunc_div(t, a * b),
{
    let u = if t >= 0 {
        t
    } else {
        -t
    };
    lemma_div_denominator(u, a, b);
    lemma_div_pos_is_pos(u, a);
    lemma_div_pos_is_pos(u / a, b);
}

/// A span spread over the units from hours down has the length it was
/// spread from.
pub proof fn lemma_balanced_length(s: Span, t: int)
    requires
        balanced_to_hours(s, t),
    ensures
        s.nanos() == t,
{
    lemma_trunc_div_nested(t, 60_000_000_000, 60);
    lemma_trunc_div_nested(t, 1_000_000_000, 60);
    lemma_trunc_div_nested(t, 1_000_000, 1000);
    lemma_trunc_div_nested(t, 1000, 1000);
}

impl Span {
    /// The span's length in nanoseconds, a day counting as 24 hours.
    pub open spec fn nanos(self) -> int {
        self.days * 86_400_000_000_000 + self.hours * 3_600_000_000_000 + self.minutes
            * 60_000_000_000 + self.seconds * 1_000_000_000 + self.milliseconds * 1_000_000
            + self.microseconds * 1000 + self.nanoseconds
    }

    /// No two units have opposite signs.
    pub open spec fn wf(self) -> bool {
        ||| (self.days >= 0 && self.hours >= 0 && self.minutes >= 0 && self.seconds >= 0
            && self.milliseconds >= 0 && self.microseconds >= 0 && self.nanoseconds >= 0)
        ||| (self.days <= 0 && self.hours <= 0 && self.minutes <= 0 && self.seconds <= 0
            && self.milliseconds <= 0 && self.microseconds <= 0 && self.nanoseconds <= 0)
    }

    pub open spec fn zero_spec() -> Span {
        Span {
            days: 0,
            hours: 0,
            minutes: 0,
            seconds: 0,
            milliseconds: 0,
            microseconds: 0,
            nanoseconds: 0,
        }
    }

    /// The empty span.
    pub fn zero() -> (r: Span)
        ensures
            r == Span::zero_spec(),
    {
        Span {
            days: 0,
            hours: 0,
            minutes: 0,
            seconds: 0,
            milliseconds: 0,
            microseconds: 0,
            nanoseconds: 0,
        }
    }

    /// The span's length in nanoseconds.
    pub fn total_nanoseconds(&self) -> (r: i128)
        ensures
            r == self.nanos(),
    {
        self.days as i128 * 86_400_000_000_000 + self.hours as i128 * 3_600_000_000_000
            + self.minutes as i128 * 60_000_000_000 + self.seconds as i128 * 1_000_000_000
            + self.milliseconds as i128 * 1_000_000 + self.microseconds as i128 * 1000
            + self.nanoseconds as i128
    }
}

/// What `jiff::Span::checked_add` gives for two spans, `None` where it fails.
pub uninterp spec fn checked_span_sum(a: Span, b: Span) -> Option<Span>;

/// Relies on `jiff::Span::checked_add` without a relative datetime: a day
/// counts as 24 hours, the nanosecond totals are added, and the sum is spread
/// again over the units up to the larger of the two largest units; it fails
/// where a unit leaves jiff's range.
#[verifier::external_body]
pub(crate) fn span_checked_add(a: Span, b: Span) -> (r: Result<Span, jiff::Error>)
    ensures
        r matches Ok(v) ==> checked_span_sum(a, b) == Some(v),
        r is Err ==> checked_span_sum(a, b) is None,
        r matches Ok(v) ==> v.wf(),
        r matches Ok(v) ==> (a.wf() && b.wf() ==> v.nanos() == a.nanos() + b.nanos()),
{
    let s = JSpan::new().try_days(a.days)?.try_hours(a.hours)?.try_minutes(a.minutes)?
        .try_seconds(a.seconds)?.try_milliseconds(a.milliseconds)?
        .try_microseconds(a.microseconds)?.try_nanoseconds(a.nanoseconds)?
        .checked_add(JSpan::new().try_days(b.days)?.try_hours(b.hours)?.try_minutes(b.minutes)?
        .try_seconds(b.seconds)?.try_milliseconds(b.milliseconds)?
        .try_microseconds(b.microseconds)?.try_nanoseconds(b.nanoseconds)?)?;
    Ok(Span { days: s.get_days(), hours: s.get_hours(), minutes: s.get_minutes(),
        seconds: s.get_seconds(), milliseconds: s.get_milliseconds(),
        microseconds: s.get_microseconds(), nanoseconds: s.get_nanoseconds() })
}

/// Relies on `jiff::Span::round` with hours as the largest unit and no
/// relative datetime: a day counts as 24 hours and the nanosecond total is
/// spread again over hours down to nanoseconds, rounding nothing off; it fails
/// where a unit leaves jiff's range.
#[verifier::external_body]
fn span_round_to_hours(a: Span) -> (r: Result<Span, jiff::Error>)
    ensures
        r matches Ok(v) ==> (a.wf() ==> balanced_to_hours(v, a.nanos())),
        r matches Ok(v) ==> v.wf(),
        displayable(a) ==> r is Ok,
{
    let x = JSpan::new().try_days(a.days)?.try_hours(a.hours)?.try_minutes(a.minutes)?
        .try_seconds(a.seconds)?.try_milliseconds(a.milliseconds)?
        .try_microseconds(a.microseconds)?.try_nanoseconds(a.nanoseconds)?;
    let s = x.round(jiff::SpanRound::new().largest(jiff::Unit::Hour))?;
    Ok(Span { days: s.get_days(), hours: s.get_hours(), minutes: s.get_minutes(),
        seconds: s.get_seconds(), milliseconds: s.get_milliseconds(),
        microseconds: s.get_microseconds(), nanoseconds: s.get_nanoseconds() })
}

pub open spec fn digit_char(d: nat) -> char {
    seq!['0', '1', '2', '3', '4', '5', '6', '7', '8', '9'][d as int]
}

/// The decimal digits of `n`, without leading zeros.
pub open spec fn decimal(n: nat) -> Seq<char>
    decreases n,
{
    if n < 10 {
        seq![digit_char(n)]
    } else {
        decimal(n / 10).push(digit_char(n % 10))
    }
}

/// `n` written in decimal, zero-padded to two characters.
pub open spec fn two_wide(n: int) -> Seq<char> {
    if n < 0 {
        seq!['-'] + decimal((-n) as nat)
    } else if n < 10 {
        seq!['0'] + decimal(n as nat)
    } else {
        decimal(n as nat)
    }
}

/// The text `HHh MMm SSs`.
pub open spec fn hms_text(h: int, m: int, s: int) -> Seq<char> {
    two_wide(h) + seq!['h', ' '] + two_wide(m) + seq!['m', ' '] + two_wide(s) + seq!['s']
}

/// How a span of `t` nanoseconds is displayed.
pub open spec fn span_text(t: int) -> Seq<char> {
    hms_text(hours_of(t), minutes_of(t), seconds_of(t))
}

fn digit_str(d: u64) -> (r: &'static str)
    requires
        d < 10,
    ensures
        r@ == seq![digit_char(d as nat)],
{
    match d {
        0 => {
            proof { reveal_strlit("0"); }
            "0"
        },
        1 => {
            proof { reveal_strlit("1"); }
            "1"
        },
        2 => {
            proof { reveal_strlit("2"); }
            "2"
        },
        3 => {
            proof { reveal_strlit("3"); }
            "3"
        },
        4 => {
            proof { reveal_strlit("4"); }
            "4"
        },
        5 => {
            proof { reveal_strlit("5"); }
            "5"
        },
        6 => {
            proof { reveal_strlit("6"); }
            "6"
        },
        7 => {
            proof { reveal_strlit("7"); }
            "7"
        },
        8 => {
            proof { reveal_strlit("8"); }
            "8"
        },
        _ => {
            proof { reveal_strlit("9"); }
            "9"
        },
    }
}

pub(crate) fn push_decimal(out: &mut String, n: u64)
    ensures
        final(out)@ == old(out)@ + decimal(n as nat),
    decreases n,
{
    if n >= 10 {
        push_decimal(out, n / 10);
    }
    let ghost mid = out@;
    out.append(digit_str(n % 10));
    proof {
        if n >= 10 {
            assert(mid + seq![digit_char((n % 10) as nat)] =~= old(out)@ + decimal(n as nat));
        } else {
            assert(mid =~= old(out)@);
        }
    }
}

pub(crate) fn push_two_wide(out: &mut String, n: i64)
    ensures
        final(out)@ == old(out)@ + two_wide(n as int),
{
    let ghost start = out@;
    if n < 0 {
        proof { reveal_strlit("-"); }
        out.append("-");
        push_decimal(out, (-(n as i128)) as u64);
    } else {
        if n < 10 {
            proof { reveal_strlit("0"); }
            out.append("0");
        }
        push_decimal(out, n as u64);
    }
    assert(out@ =~= start + two_wide(n as int));
}

/// Renders hours, minutes and seconds as `HHh MMm SSs`.
pub fn format_hms(h: i64, m: i64, s: i64) -> (r: String)
    ensures
        r@ == hms_text(h as int, m as int, s as int),
{
    let mut out = String::new();
    push_two_wide(&mut out, h);
    proof { reveal_strlit("h "); }
    out.append("h ");
    push_two_wide(&mut out, m);
    proof { reveal_strlit("m "); }
    out.append("m ");
    push_two_wide(&mut out, s);
    proof { reveal_strlit("s"); }
    out.append("s");
    assert(out@ =~= hms_text(h as int, m as int, s as int));
    out
}

/// Displays a span as `HHh MMm SSs` after carrying everything up to hours.
pub fn format_span(span: &Span) -> (r: Result<String, Error>)
    ensures
        r matches Ok(text) ==> (span.wf() ==> text@ == span_text(span.nanos())),
        displayable(*span) ==> r is Ok,
        r is Err ==> r matches Err(Error::Span(_)),
{
    match span_round_to_hours(*span) {
        Ok(b) => Ok(format_hms(b.hours as i64, b.minutes, b.seconds)),
        Err(e) => Err(Error::Span(e)),
    }
}

} // verus!
