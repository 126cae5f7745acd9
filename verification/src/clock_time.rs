use vstd::prelude::*;

verus! {

/// One sampled wall-clock instant, reduced to what an analog clock face
/// shows: minutes of the hour, seconds of the minute, and milliseconds of
/// the second.  A value is taken once per frame and threaded, unchanged,
/// through the whole recursive generation.
#[derive(Clone, Copy, Debug, PartialEq, Eq)]
pub struct ClockTime {
    pub minutes: u32,
    pub seconds: u32,
    pub millis: u32,
}

impl ClockTime {
    /// Every field stays inside the range a clock face can show.
    pub open spec fn wf(self) -> bool {
        self.minutes < 60 && self.seconds < 60 && self.millis < 1000
    }

    pub fn new(minutes: u32, seconds: u32, millis: u32) -> (t: ClockTime)
        requires
            minutes < 60,
            seconds < 60,
            millis < 1000,
        ensures
            t.wf(),
            t.minutes == minutes,
            t.seconds == seconds,
            t.millis == millis,
    {
        ClockTime { minutes, seconds, millis }
    }

    /// Range-checked constructor for callers outside the verified library;
    /// it returns a value exactly when all three fields are in range.
    pub fn checked_new(minutes: u32, seconds: u32, millis: u32) -> (r: Option<ClockTime>)
        ensures
            r is Some <==> (minutes < 60 && seconds < 60 && millis < 1000),
            r matches Some(t) ==> t.wf() && t.minutes == minutes && t.seconds == seconds
                && t.millis == millis,
    {
        if minutes < 60 && seconds < 60 && millis < 1000 {
            Some(ClockTime { minutes, seconds, millis })
        } else {
            None
        }
    }
}

} // verus!
