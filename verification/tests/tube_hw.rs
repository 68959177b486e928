use std::cell::RefCell;
use std::rc::Rc;

use vumeter::protocol::{Brightness, ParseState, Pkt};
use vumeter::shared::RingBuf;
use vumeter::tube_hw::{DigitalOutput, Event, HVTransition, PWMPin, PWMx4, PwmManager, State, HV};

struct FakePin {
    log: Rc<RefCell<Vec<bool>>>,
}

impl DigitalOutput for FakePin {
    fn set(&mut self, on: bool) {
        self.log.borrow_mut().push(on);
    }
}

struct FakePWM {
    max: u32,
    log: Rc<RefCell<Vec<(char, u32)>>>,
}

impl PWMx4 for FakePWM {
    fn get_max_duty(&self) -> u32 {
        self.max
    }

    fn set_duty(&mut self, pin: PWMPin, duty: u32) {
        let c = match pin {
            PWMPin::A => 'a',
            PWMPin::B => 'b',
            PWMPin::C => 'c',
            PWMPin::D => 'd',
        };
        self.log.borrow_mut().push((c, duty));
    }
}

type Logs = (Rc<RefCell<Vec<bool>>>, Rc<RefCell<Vec<(char, u32)>>>);

fn fakes() -> (FakePin, FakePWM, Logs) {
    let pins = Rc::new(RefCell::new(vec![]));
    let duties = Rc::new(RefCell::new(vec![]));
    (
        FakePin { log: pins.clone() },
        FakePWM { max: 100, log: duties.clone() },
        (pins, duties),
    )
}

fn level(v: u16) -> Brightness {
    Brightness::new(v).unwrap()
}

#[test]
fn hv_warms_up_for_five_ticks() {
    let (pin, _, (pins, _)) = fakes();
    let mut hv = HV::init(pin);
    assert_eq!(*pins.borrow(), vec![false]);
    assert!(matches!(hv.tick(), HVTransition::NoChange));
    hv.energize();
    hv.energize();
    assert_eq!(*pins.borrow(), vec![false, true]);
    for _ in 0..5 {
        assert!(matches!(hv.tick(), HVTransition::NoChange));
    }
    assert!(matches!(hv.tick(), HVTransition::JustBecameEnergized));
    assert!(matches!(hv.tick(), HVTransition::NoChange));
    hv.deenergize();
    hv.deenergize();
    assert_eq!(*pins.borrow(), vec![false, true, false]);
}

#[test]
fn pwm_manager_applies_duties_once_energized() {
    let (pin, pwm, (pins, duties)) = fakes();
    let hv = HV::init(pin);
    let mut m = PwmManager::new(hv, pwm);
    assert_eq!(*duties.borrow(), vec![('a', 0), ('b', 0), ('c', 0), ('d', 0)]);
    assert_eq!(*pins.borrow(), vec![false, true]);
    // While warming up, duties are held back.
    m.set_pwm(PWMPin::B, level(0x3FFF));
    m.set_pwm(PWMPin::D, level(0x2000));
    assert_eq!(duties.borrow().len(), 4);
    for _ in 0..5 {
        m.tick();
    }
    assert_eq!(duties.borrow().len(), 4);
    m.tick();
    assert_eq!(duties.borrow()[4..].to_vec(), vec![('a', 0), ('b', 100), ('c', 0), ('d', 50)]);
    // Once on, a new duty is written at once.
    m.set_pwm(PWMPin::A, level(0x3FFF));
    assert_eq!(duties.borrow().last(), Some(&('a', 100)));
}

#[test]
fn pwm_manager_switches_off_without_updates() {
    let (pin, pwm, (pins, duties)) = fakes();
    let mut m = PwmManager::new(HV::init(pin), pwm);
    m.set_pwm(PWMPin::A, level(0x3FFF));
    for _ in 0..59 {
        m.tick();
    }
    assert_eq!(pins.borrow().last(), Some(&true));
    let before = duties.borrow().len();
    m.tick();
    assert_eq!(pins.borrow().last(), Some(&false));
    assert_eq!(duties.borrow()[before..].to_vec(), vec![('a', 0), ('b', 0), ('c', 0), ('d', 0)]);
}

#[test]
fn pwm_manager_switches_off_after_silence() {
    let (pin, pwm, (pins, _)) = fakes();
    let mut m = PwmManager::new(HV::init(pin), pwm);
    // Level 0 keeps the updates coming but counts as silence.
    for _ in 0..199 {
        m.set_pwm(PWMPin::A, level(0));
        m.tick();
    }
    assert_eq!(*pins.borrow(), vec![false, true]);
    m.set_pwm(PWMPin::A, level(0));
    m.tick();
    assert_eq!(*pins.borrow(), vec![false, true, false]);
    // A nonzero level switches the supply back on.
    m.set_pwm(PWMPin::C, level(1000));
    assert_eq!(*pins.borrow(), vec![false, true, false, true]);
}

#[test]
fn tube_board_routes_packets() {
    let (pin, pwm, (_, duties)) = fakes();
    let mut state = State::new(pin, pwm);
    let mut u1 = RingBuf::new(vec![0u8; 64]);
    let mut u2 = RingBuf::new(vec![0u8; 64]);
    for _ in 0..6 {
        state.update(Event::TimerFired, &mut u1, &mut u2);
    }
    let base = duties.borrow().len();
    // Hop count 0 from port 1 is tube D.
    for b in Pkt::mk_pkt(0, level(0x3FFF)).unwrap().format().iter() {
        state.update(Event::Rx1(*b), &mut u1, &mut u2);
    }
    assert_eq!(duties.borrow()[base..].to_vec(), vec![('d', 100)]);
    // Hop count 1 from port 2 is tube B.
    for b in Pkt::mk_pkt(1, level(0x3FFF)).unwrap().format().iter() {
        state.update(Event::Rx2(*b), &mut u1, &mut u2);
    }
    assert_eq!(duties.borrow()[base + 1..].to_vec(), vec![('b', 100)]);
    // Hop count 5 from port 1 goes on through port 2 as hop count 1.
    for b in Pkt::mk_pkt(5, level(9)).unwrap().format().iter() {
        state.update(Event::Rx1(*b), &mut u1, &mut u2);
    }
    assert_eq!(u1.len(), 0);
    let mut parser = ParseState::new();
    let mut got = None;
    while let Some(b) = u2.with_front(Some) {
        if let Some(p) = parser.step_(b) {
            got = Some(p);
        }
    }
    assert_eq!(got, Some(Pkt::mk_pkt(1, level(9)).unwrap()));
}

#[test]
fn startup_pattern_ramps_up_and_down() {
    let (pin, pwm, (_, duties)) = fakes();
    let mut state = State::new(pin, pwm);
    let mut u1 = RingBuf::new(vec![0u8; 8]);
    let mut u2 = RingBuf::new(vec![0u8; 8]);
    for _ in 0..6 {
        state.update(Event::TimerFired, &mut u1, &mut u2);
    }
    let mut frames = 0;
    let mut last_frame_duties = vec![];
    while state.display_startup_pattern(frames) {
        frames += 1;
        let log = duties.borrow();
        last_frame_duties = log[log.len() - 4..].to_vec();
        if frames == 1023 {
            // The top of the ramp: level 1022 * 16.
            assert_eq!(last_frame_duties, vec![('a', 99), ('b', 99), ('c', 99), ('d', 99)]);
        }
    }
    assert_eq!(frames, 2046);
    assert_eq!(last_frame_duties, vec![('a', 0), ('b', 0), ('c', 0), ('d', 0)]);
    assert!(!state.display_startup_pattern(5000));
}
