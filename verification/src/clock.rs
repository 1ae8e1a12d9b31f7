use chrono::Timelike;
use vstd::prelude::*;

verus! {

/// The current local hour and minute: `chrono::Local::now()`, read through
/// `Timelike::hour` (documented to lie between 0 and 23) and
/// `Timelike::minute` (between 0 and 59). Which time it is depends on the
/// clock and the time zone and is not stated.
#[verifier::external_body]
fn local_hour_minute() -> (r: (u32, u32))
    ensures
        r.0 < 24,
        r.1 < 60,
{
    let now = chrono::Local::now();
    (now.hour(), now.minute())
}

/// The current local time of day, in minutes since midnight.
pub fn local_minutes_of_day() -> (m: u32)
    ensures
        m < 24 * 60,
{
    let (h, m) = local_hour_minute();
    h * 60 + m
}

} // verus!
