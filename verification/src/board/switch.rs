use vstd::prelude::*;

use crate::audio_hw::{Pin, SwitchEvent};

verus! {

/// Claims a peripheral that may be handed out once: `true`, and the flag set,
/// when it was free; `false` when it was taken already.
pub(crate) fn claim(taken: &mut bool) -> (r: bool)
    ensures
        r == !*old(taken),
        *final(taken),
{
    if *taken {
        false
    } else {
        *taken = true;
        true
    }
}

/// The pin that puts the audio board's regulator to sleep.
pub struct SleepPin {}

impl SleepPin {
    /// The sleep pin, the first time it is asked for; `taken` records that it
    /// has been handed out.
    pub fn initialize(taken: &mut bool) -> (r: Option<SleepPin>)
        ensures
            r is Some <==> !*old(taken),
            *final(taken),
    {
        if claim(taken) {
            Some(SleepPin {  })
        } else {
            None
        }
    }
}

/// The power enable of the tube chain.
pub struct Pwr {}

impl Pwr {
    /// The power enable, the first time it is asked for.
    pub fn initialize(taken: &mut bool) -> (r: Option<Pwr>)
        ensures
            r is Some <==> !*old(taken),
            *final(taken),
    {
        if claim(taken) {
            Some(Pwr {  })
        } else {
            None
        }
    }
}

/// The status LED.
pub struct Led {}

impl Led {
    /// The LED, the first time it is asked for.
    pub fn initialize(taken: &mut bool) -> (r: Option<Led>)
        ensures
            r is Some <==> !*old(taken),
            *final(taken),
    {
        if claim(taken) {
            Some(Led {  })
        } else {
            None
        }
    }
}

/// The switch position that the four switch lines show: exactly one line
/// high selects its position (bit 0 for A up to bit 3 for D); any other
/// reading is no position.
pub open spec fn switch_position(state: u8) -> Option<Pin> {
    if state == 1 {
        Some(Pin::A)
    } else if state == 2 {
        Some(Pin::B)
    } else if state == 4 {
        Some(Pin::C)
    } else if state == 8 {
        Some(Pin::D)
    } else {
        None
    }
}

/// The four-position mode switch.
pub struct Switch {
    prev: Option<Pin>,
}

impl View for Switch {
    type V = Option<Pin>;

    /// The position last seen; `None` when the lines were in no position.
    closed spec fn view(&self) -> Option<Pin> {
        self.prev
    }
}

/// The reading of the four switch lines, line 9 in bit 0 up to line 12 in
/// bit 3.
pub open spec fn spec_pins_state(pin9: bool, pin10: bool, pin11: bool, pin12: bool) -> u8 {
    ((if pin9 { 1int } else { 0 }) + (if pin10 { 2int } else { 0 }) + (if pin11 { 4int } else { 0 })
        + (if pin12 { 8int } else { 0 })) as u8
}

impl Switch {
    /// The switch, the first time it is asked for, with no position seen.
    pub fn initialize(taken: &mut bool) -> (r: Option<Switch>)
        ensures
            r is Some <==> !*old(taken),
            r matches Some(s) ==> s@ is None,
            *final(taken),
    {
        if claim(taken) {
            Some(Switch { prev: None })
        } else {
            None
        }
    }

    /// Takes the reading `state` of the switch lines. A change to a position
    /// reports that position; a change to no position, or no change, reports
    /// nothing. The reading is remembered either way.
    pub fn check(&mut self, state: u8) -> (r: Option<SwitchEvent>)
        ensures
            final(self)@ == switch_position(state),
            r == if old(self)@ != switch_position(state) {
                match switch_position(state) {
                    Some(pin) => Some(SwitchEvent::Activated(pin)),
                    None => None,
                }
            } else {
                None
            },
    {
        let state = if state == 0b1 {
            Some(Pin::A)
        } else if state == 0b10 {
            Some(Pin::B)
        } else if state == 0b100 {
            Some(Pin::C)
        } else if state == 0b1000 {
            Some(Pin::D)
        } else {
            None
        };
        if self.prev != state {
            self.prev = state;
            match state {
                None => None,
                Some(pin) => Some(SwitchEvent::Activated(pin)),
            }
        } else {
            None
        }
    }

    /// Takes the four switch lines, read as levels.
    pub fn check_pins(&mut self, pin9: bool, pin10: bool, pin11: bool, pin12: bool) -> (r: Option<
        SwitchEvent,
    >)
        ensures
            ({
                let state = spec_pins_state(pin9, pin10, pin11, pin12);
                &&& final(self)@ == switch_position(state)
                &&& r == if old(self)@ != switch_position(state) {
                    match switch_position(state) {
                        Some(pin) => Some(SwitchEvent::Activated(pin)),
                        None => None,
                    }
                } else {
                    None
                }
            }),
    {
        let b9: u8 = if pin9 { 1 } else { 0 };
        let b10: u8 = if pin10 { 1 } else { 0 };
        let b11: u8 = if pin11 { 1 } else { 0 };
        let b12: u8 = if pin12 { 1 } else { 0 };
        let mut state: u8 = 0;
        state = state | (b9 << 0u8);
        state = state | (b10 << 1u8);
        state = state | (b11 << 2u8);
        state = state | (b12 << 3u8);
        assert(state == b9 + 2 * b10 + 4 * b11 + 8 * b12) by (bit_vector)
            requires
                b9 <= 1,
                b10 <= 1,
                b11 <= 1,
                b12 <= 1,
                state == (((0u8 | (b9 << 0u8)) | (b10 << 1u8)) | (b11 << 2u8)) | (b12 << 3u8),
        ;
        self.check(state)
    }

    /// The position last seen.
    pub fn current(&self) -> (r: Option<Pin>)
        ensures
            r == self@,
    {
        self.prev
    }
}

} // verus!
