//! Points in time as plain numbers.
use vstd::prelude::*;

verus! {

/// Seconds in a day.
pub const DAY_SECS: i64 = 86_400;

/// The earliest second of the calendar: the start of the year -262143.
pub const CALENDAR_START: i64 = -8_334_601_228_800;

/// A point in time: seconds since 1970 in UTC, and the nanoseconds within the
/// second.
#[derive(Debug, Clone, Copy, PartialEq, Eq, Structural)]
pub struct Timestamp {
    pub secs: i64,
    pub nanos: u32,
}

/// Nanoseconds since 1970.
pub open spec fn instant(t: Timestamp) -> int {
    t.secs * 1_000_000_000 + t.nanos
}

/// Whether `a` lies before `b`: by second, then by nanosecond.
pub open spec fn earlier(a: Timestamp, b: Timestamp) -> bool {
    a.secs < b.secs || (a.secs == b.secs && a.nanos < b.nanos)
}

/// Whether `a` lies before `b`.
pub fn is_earlier(a: Timestamp, b: Timestamp) -> (r: bool)
    ensures
        r == earlier(a, b),
{
    a.secs < b.secs || (a.secs == b.secs && a.nanos < b.nanos)
}

/// Whether a point lies within a leap second, which is counted as part of the
/// second before it.
pub open spec fn in_leap_second(t: Timestamp) -> bool {
    t.nanos >= 1_000_000_000
}

/// The second of the day.
pub open spec fn second_of_day(t: Timestamp) -> int {
    t.secs as int % 86_400
}

/// The nanoseconds that passed from `then` to `now`. A leap second in one of
/// them is counted if the other comes after it in the day, or before it when
/// going back.
pub open spec fn elapsed(then: Timestamp, now: Timestamp) -> int {
    let leap: int = if second_of_day(now) > second_of_day(then) && in_leap_second(then) {
        1_000_000_000
    } else if second_of_day(now) < second_of_day(then) && in_leap_second(now) {
        -1_000_000_000
    } else {
        0
    };
    instant(now) - instant(then) + leap
}

/// The second of the point `days` days before `now`.
pub open spec fn secs_before(now: Timestamp, days: u32) -> int {
    if days > 0 && in_leap_second(now) {
        now.secs + 1 - DAY_SECS * days
    } else {
        now.secs - DAY_SECS * days
    }
}

/// The point `days` days before `now`. Going back from a leap second leads to
/// the second after it.
pub open spec fn back(now: Timestamp, days: u32) -> Timestamp {
    Timestamp {
        secs: secs_before(now, days) as i64,
        nanos: if days > 0 && in_leap_second(now) {
            (now.nanos - 1_000_000_000) as u32
        } else {
            now.nanos
        },
    }
}

/// The point `days` days before `now`. The calendar must reach back that far.
pub fn days_before(now: Timestamp, days: u32) -> (r: Timestamp)
    requires
        secs_before(now, days) >= CALENDAR_START,
    ensures
        r == back(now, days),
        r.secs == secs_before(now, days),
{
    let whole: i64 = DAY_SECS * (days as i64);
    if days > 0 && now.nanos >= 1_000_000_000 {
        Timestamp { secs: now.secs - (whole - 1), nanos: now.nanos - 1_000_000_000 }
    } else {
        Timestamp { secs: now.secs - whole, nanos: now.nanos }
    }
}

/// The second of the day.
fn day_second(t: Timestamp) -> (r: i64)
    ensures
        r == second_of_day(t),
{
    match t.secs.checked_rem_euclid(DAY_SECS) {
        Some(r) => r,
        None => 0,
    }
}

/// Whether more than `hours` hours passed from `then` to `now`.
pub fn hours_passed(then: Timestamp, now: Timestamp, hours: u32) -> (r: bool)
    ensures
        r == (elapsed(then, now) > hours * 3600 * 1_000_000_000),
{
    let a: i128 = (now.secs as i128) * 1_000_000_000 + (now.nanos as i128);
    let b: i128 = (then.secs as i128) * 1_000_000_000 + (then.nanos as i128);
    let x: i64 = day_second(now);
    let y: i64 = day_second(then);
    let leap: i128 = if x > y && then.nanos >= 1_000_000_000 {
        1_000_000_000
    } else if x < y && now.nanos >= 1_000_000_000 {
        -1_000_000_000
    } else {
        0
    };
    a - b + leap > (hours as i128) * 3600 * 1_000_000_000
}

/// Between ordinary points in time, what passed is the difference of the
/// seconds and of the nanoseconds, and going back counts the same with the
/// other sign.
pub proof fn law_elapsed_is_the_difference(then: Timestamp, now: Timestamp)
    requires
        then.nanos < 1_000_000_000,
        now.nanos < 1_000_000_000,
    ensures
        elapsed(then, now) == (now.secs - then.secs) * 1_000_000_000 + now.nanos - then.nanos,
        elapsed(now, then) == -elapsed(then, now),
        earlier(then, now) <==> elapsed(then, now) > 0,
{
}

/// A point within a leap second counts one second more towards a later time of
/// day, and nothing more towards the same or an earlier one; going back counts
/// the same with the other sign.
pub proof fn law_leap_second_is_counted(then: Timestamp, now: Timestamp)
    requires
        then.nanos >= 1_000_000_000,
        now.nanos < 1_000_000_000,
    ensures
        elapsed(then, now) == (now.secs - then.secs) * 1_000_000_000 + now.nanos - then.nanos + (
        if now.secs as int % 86_400 > then.secs as int % 86_400 {
            1_000_000_000int
        } else {
            0
        }),
        elapsed(now, then) == -elapsed(then, now),
{
}

/// Between two leap seconds the later one in the day counts the other.
pub proof fn law_two_leap_seconds(then: Timestamp, now: Timestamp)
    requires
        then.nanos >= 1_000_000_000,
        now.nanos >= 1_000_000_000,
    ensures
        elapsed(then, now) == (now.secs - then.secs) * 1_000_000_000 + now.nanos - then.nanos + (
        if now.secs as int % 86_400 > then.secs as int % 86_400 {
            1_000_000_000int
        } else if now.secs as int % 86_400 < then.secs as int % 86_400 {
            -1_000_000_000
        } else {
            0
        }),
{
}

/// Earlier is by second, and by nanosecond within the same second.
pub proof fn law_earlier_orders(a: Timestamp, b: Timestamp)
    ensures
        a.secs < b.secs ==> earlier(a, b) && !earlier(b, a),
        a.secs == b.secs ==> (earlier(a, b) <==> a.nanos < b.nanos),
        a != b ==> earlier(a, b) || earlier(b, a),
{
}

/// Going back by days keeps the time of the day; going back from a leap second
/// leads to the second after it, and going back no day stays.
pub proof fn law_days_back(now: Timestamp, days: u32)
    requires
        now.secs - 86_400 * days >= i64::MIN,
    ensures
        days == 0 ==> back(now, days) == now,
        now.nanos < 1_000_000_000 ==> back(now, days).secs == now.secs - 86_400 * days && back(
            now,
            days,
        ).nanos == now.nanos && secs_before(now, days) == now.secs - 86_400 * days,
        days > 0 && now.nanos >= 1_000_000_000 ==> back(now, days).secs == now.secs + 1 - 86_400
            * days && back(now, days).nanos == now.nanos - 1_000_000_000 && secs_before(now, days)
            == now.secs + 1 - 86_400 * days,
{
}

} // verus!
