//! The calendar and clock fields the time reading derives from the local
//! date and time: the quarter, the 12-hour clock, and the milliseconds.
use vstd::prelude::*;

verus! {

/// The quarter a month (1 to 12) falls in.
pub fn quarter(month: u32) -> (r: u32)
    requires
        month >= 1,
    ensures
        r == (month - 1) / 3 + 1,
{
    (month - 1) / 3 + 1
}

/// The hour on a 12-hour clock: 12 for noon and midnight.
pub fn hour_12(hour: u32) -> (r: u32)
    ensures
        r == (if hour % 12 == 0 { 12 } else { hour % 12 }),
{
    let h = hour % 12;
    if h == 0 { 12 } else { h }
}

/// `AM` before noon, `PM` from noon on.
pub fn am_pm(hour: u32) -> (r: &'static str)
    ensures
        hour < 12 ==> r@ == "AM"@,
        hour >= 12 ==> r@ == "PM"@,
{
    if hour < 12 { "AM" } else { "PM" }
}

/// The remainder of a Unix time in milliseconds by 1000, with the sign of
/// the time (`%` on `i64`).
pub open spec fn millisecond_spec(unix_ms: int) -> int {
    if unix_ms >= 0 {
        unix_ms % 1000
    } else {
        -((-unix_ms) % 1000)
    }
}

/// The millisecond within the second of a Unix time in milliseconds.
pub fn millisecond(unix_ms: i64) -> (r: i64)
    ensures
        r == millisecond_spec(unix_ms as int),
{
    if unix_ms >= 0 {
        unix_ms % 1000
    } else {
        let back = unix_ms + 1;
        let m = (-back) % 1000;
        if m == 999 { 0 } else { -(m + 1) }
    }
}

} // verus!
