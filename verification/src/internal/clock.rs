use vstd::prelude::*;

use chrono::Timelike;

verus! {

/// A wall-clock time of day held as plain values, as far as the protocol
/// reads it: it is only ever rendered as `HH:MM:SS`.
#[derive(Clone, Copy, Debug, PartialEq, Eq, Structural)]
pub struct ClockTime {
    pub hour: u8,
    pub minute: u8,
    pub second: u8,
}

impl ClockTime {
    pub open spec fn wf(self) -> bool {
        self.hour < 24 && self.minute < 60 && self.second < 60
    }
}

/// Relies on chrono::Local::now and the Timelike accessors hour, minute and
/// second, which return an hour in 0..=23 and a minute and second in 0..=59
/// (chrono carries a leap second in the nanosecond field, not here).
#[verifier::external_body]
pub(crate) fn clock_now() -> (r: ClockTime)
    ensures
        r.wf(),
{
    let t = chrono::Local::now();
    ClockTime { hour: t.hour() as u8, minute: t.minute() as u8, second: t.second() as u8 }
}

/// Relies on chrono::Local::now and DateTime::timestamp_nanos_opt for a
/// monotonic-ish session identity; nothing is promised of a clock reading.
#[verifier::external_body]
pub(crate) fn session_id_from_clock() -> u64
{
    chrono::Local::now().timestamp_nanos_opt().unwrap_or(0) as u64
}

/// Relies on uuid::Uuid::new_v4 and its hyphenated rendering, which is
/// always 36 characters; the value itself is random.
#[verifier::external_body]
pub(crate) fn random_name() -> (r: String)
    ensures
        r@.len() == 36,
{
    uuid::Uuid::new_v4().to_string()
}

} // verus!
