use vstd::prelude::*;
use crate::catalog::Timestamp;
use crate::chars::string_of;
use crate::fmt::{decimal, decimal_chars, extend};

verus! {

#[verifier::external_type_specification]
#[verifier::external_body]
pub struct ExTimeZone(jiff::tz::TimeZone);

/// The hour and minute a clock time such as `04:00` names, as jiff reads it.
pub uninterp spec fn clock_of(text: Seq<char>) -> Option<(int, int)>;

/// Parses `text` with `jiff::civil::Time`'s `FromStr`. Claimed: the result is
/// `clock_of(text)`, the hour and minute of the time read, which the crate keeps in
/// `0..=23` and `0..=59`; text that is no clock time gives nothing.
#[verifier::external_body]
fn clock_time(text: &str) -> (r: Option<(u8, u8)>)
    ensures
        match r {
            Some((h, m)) => clock_of(text@) == Some((h as int, m as int)) && h < 24 && m < 60,
            None => clock_of(text@) is None,
        },
{
    match text.parse::<jiff::civil::Time>() {
        Ok(t) => Some((t.hour() as u8, t.minute() as u8)),
        Err(_) => None,
    }
}

/// The first fire, in nanoseconds since the epoch, of the cron schedule `expression`
/// after the instant `after` (in nanoseconds) on the clocks of `tz`, as jiff-cron
/// computes it; nothing when the expression does not parse or no fire is found.
pub uninterp spec fn cron_fire(expression: Seq<char>, after: int, tz: jiff::tz::TimeZone) -> Option<int>;

/// A fire as nanoseconds since the epoch.
pub open spec fn fire_nanos(r: Option<Timestamp>) -> Option<int> {
    match r {
        Some(t) => Some(t.nanosecond as int),
        None => None,
    }
}

/// Calls `jiff_cron::Schedule::from_str` on `expression` and takes the first fire of
/// `Schedule::after` from `after` in `tz`. Claimed: the result is
/// `cron_fire(expression, after, tz)`, a function of these three alone (the schedule
/// reads nothing else), and a fire found is later than `after` (the schedule rounds
/// `after` up to the second and advances from there). Which instant that is rests on the
/// cron grammar and the zone's rules, which this library does not model.
#[verifier::external_body]
pub fn next_fire_after(expression: &str, after: Timestamp, tz: &jiff::tz::TimeZone) -> (r: Option<Timestamp>)
    ensures
        fire_nanos(r) == cron_fire(expression@, after.nanosecond as int, *tz),
        r matches Some(t) ==> t.nanosecond > after.nanosecond,
{
    let schedule = <jiff_cron::Schedule as std::str::FromStr>::from_str(expression).ok()?;
    let start = jiff::Timestamp::from_nanosecond(after.nanosecond).ok()?;
    let next = schedule.after(start.to_zoned(tz.clone())).next()?;
    Some(Timestamp { nanosecond: next.timestamp().as_nanosecond() })
}

/// The cron expression that fires every day at `hour:minute`, second zero.
pub open spec fn daily_spec(hour: nat, minute: nat) -> Seq<char> {
    seq!['0', ' '] + decimal(minute) + seq![' '] + decimal(hour) + seq![' ', '*', ' ', '*', ' ', '*', ' ', '*']
}

/// The cron expression for a daily fire at `hour:minute`.
pub fn daily_expression(hour: u8, minute: u8) -> (r: String)
    ensures
        r@ == daily_spec(hour as nat, minute as nat),
{
    let mut out: Vec<char> = vec!['0', ' '];
    let m = decimal_chars(minute as u64);
    extend(&mut out, &m);
    out.push(' ');
    let h = decimal_chars(hour as u64);
    extend(&mut out, &h);
    let tail = vec![' ', '*', ' ', '*', ' ', '*', ' ', '*'];
    extend(&mut out, &tail);
    assert(out@ =~= daily_spec(hour as nat, minute as nat));
    string_of(&out)
}

/// The cron expression a daily scan at clock time `at` (`HH:MM`) runs on; nothing when
/// `at` is no clock time.
pub fn daily_schedule(at: &str) -> (r: Option<String>)
    ensures
        match clock_of(at@) {
            Some((h, m)) => r matches Some(e) && e@ == daily_spec(h as nat, m as nat),
            None => r is None,
        },
{
    match clock_time(at) {
        Some((hour, minute)) => Some(daily_expression(hour, minute)),
        None => None,
    }
}

/// The next time, after `after`, that the clock in `tz` shows `at` (`HH:MM`); nothing
/// when `at` is no clock time. The fire is the schedule's answer for the daily
/// expression of that clock time (see [`daily_schedule`]), and is always later than
/// `after`.
pub fn next_daily_fire(at: &str, after: Timestamp, tz: &jiff::tz::TimeZone) -> (r: Option<Timestamp>)
    ensures
        clock_of(at@) is None ==> r is None,
        clock_of(at@) matches Some((h, m))
            ==> fire_nanos(r) == cron_fire(daily_spec(h as nat, m as nat), after.nanosecond as int, *tz),
        r matches Some(t) ==> t.nanosecond > after.nanosecond,
{
    match daily_schedule(at) {
        Some(expression) => next_fire_after(expression.as_str(), after, tz),
        None => None,
    }
}

} // verus!
