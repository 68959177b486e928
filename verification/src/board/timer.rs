use vstd::prelude::*;

use crate::audio_hw::TimerEvent;
use crate::board::switch::claim;

verus! {

/// Counts the firings of the periodic timer.
pub struct Timer {
    count: u64,
}

impl View for Timer {
    type V = u64;

    /// The firing count at the last reading.
    closed spec fn view(&self) -> u64 {
        self.count
    }
}

/// The timer's reload value for a period of `micros` microseconds, at 24
/// counts per microsecond.
pub fn timer_cycles(micros: u32) -> (r: u32)
    requires
        1 <= micros <= u32::MAX / 24,
    ensures
        r == 24 * micros - 1,
{
    (24000000 / 1000000) * micros - 1
}

impl Timer {
    /// The timer, the first time it is asked for, with no firing counted.
    pub fn initialize(taken: &mut bool) -> (r: Option<Timer>)
        ensures
            r is Some <==> !*old(taken),
            r matches Some(t) ==> t@ == 0,
            *final(taken),
    {
        if claim(taken) {
            Some(Timer { count: 0 })
        } else {
            None
        }
    }

    /// Takes the firing count `cnt`: the firings since the last reading, if
    /// there were any.
    pub fn elapsed(&mut self, cnt: u64) -> (r: Option<TimerEvent>)
        requires
            cnt >= old(self)@,
        ensures
            final(self)@ == cnt,
            r == if cnt > old(self)@ {
                Some(TimerEvent::Elapsed((cnt - old(self)@) as u64))
            } else {
                None
            },
    {
        let diff = cnt - self.count;
        self.count = cnt;
        if diff > 0 {
            Some(TimerEvent::Elapsed(diff))
        } else {
            None
        }
    }
}

} // verus!
