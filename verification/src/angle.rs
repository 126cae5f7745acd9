use vstd::prelude::*;
use crate::clock_time::ClockTime;

verus! {

// Every hand angle this clock can show is an exact multiple of
// 1/3,600,000 of a full turn: the seconds hand moves in steps of
// 1/60,000 turn (one millisecond), the minutes hand in steps of
// 1/3,600,000 turn (one millisecond of the hour).  Angles are therefore
// carried as exact integer counts of that unit, positive clockwise from
// the "3 o'clock" direction, and only the renderer ever turns one into
// radians.

/// Number of angle units in one full turn (360 degrees).
pub const UNITS_PER_TURN: i64 = 3_600_000;

/// Number of angle units in a quarter turn (90 degrees).  Subtracting it
/// rotates the zero position from "3 o'clock" up to "12 o'clock".
pub const QUARTER_TURN_UNITS: i64 = 900_000;

/// Bound inside which all angle arithmetic of this library stays; far
/// below `i64::MAX`, so sums of a delta and an inherited offset never
/// overflow.
pub const ANGLE_LIMIT: i64 = 0x4000_0000_0000_0000;

/// Angle of a seconds hand before any inherited offset, in units:
/// `secondsOfMinute/60` of a turn, advanced by the milliseconds and
/// pulled back a quarter turn so that zero seconds points straight up.
pub open spec fn seconds_delta_units(t: ClockTime) -> int {
    t.seconds * 60_000 + t.millis * 60 - 900_000
}

/// Angle of a minutes hand before any inherited offset, in units:
/// `minutesOfHour/60` of a turn, advanced by the seconds and the
/// milliseconds and pulled back a quarter turn.
pub open spec fn minutes_delta_units(t: ClockTime) -> int {
    t.minutes * 60_000 + t.seconds * 1_000 + t.millis - 900_000
}

/// Both hand deltas of a well-formed time lie strictly inside one turn.
pub proof fn lemma_delta_units_in_turn(t: ClockTime)
    requires
        t.wf(),
    ensures
        -UNITS_PER_TURN < seconds_delta_units(t) < UNITS_PER_TURN,
        -UNITS_PER_TURN < minutes_delta_units(t) < UNITS_PER_TURN,
{
}

/// Seconds-hand angle for time `t` under an inherited offset.
pub fn seconds_angle_units(t: &ClockTime, offset_units: i64) -> (r: i64)
    requires
        t.wf(),
        -(ANGLE_LIMIT - UNITS_PER_TURN) <= offset_units <= ANGLE_LIMIT - UNITS_PER_TURN,
    ensures
        r == seconds_delta_units(*t) + offset_units,
        -ANGLE_LIMIT < r < ANGLE_LIMIT,
{
    let delta: i64 = (t.seconds as i64) * 60_000 + (t.millis as i64) * 60 - 900_000;
    delta + offset_units
}

/// Minutes-hand angle for time `t` under an inherited offset.
pub fn minutes_angle_units(t: &ClockTime, offset_units: i64) -> (r: i64)
    requires
        t.wf(),
        -(ANGLE_LIMIT - UNITS_PER_TURN) <= offset_units <= ANGLE_LIMIT - UNITS_PER_TURN,
    ensures
        r == minutes_delta_units(*t) + offset_units,
        -ANGLE_LIMIT < r < ANGLE_LIMIT,
{
    let delta: i64 = (t.minutes as i64) * 60_000 + (t.seconds as i64) * 1_000 + (t.millis as i64)
        - 900_000;
    delta + offset_units
}

} // verus!
