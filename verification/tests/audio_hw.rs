use vumeter::audio_hw::{
    AudioCommand, AudioEvent, AudioState, DeviceState, Event, ParamsKind, Pin, SwitchEvent,
    TimerEvent,
};
use vumeter::protocol::{Brightness, Event as PktEvent, ParseState, Pkt};

fn level(v: u16) -> Brightness {
    Brightness::new(v).unwrap()
}

fn step(d: &mut DeviceState, evt: Event) -> (Vec<Pkt>, Vec<AudioCommand>) {
    let mut out = vec![];
    let cmds = d.step(evt, &mut out);
    (out, cmds)
}

fn ticks(n: u64) -> Event {
    Event::Timer(TimerEvent::Elapsed(n))
}

fn reply(d: &mut DeviceState, ttl: i8) -> (Vec<Pkt>, Vec<AudioCommand>) {
    let frame = Pkt::mk_pkt(ttl, level(0)).unwrap().format();
    let mut all = (vec![], vec![]);
    for b in frame.iter() {
        let (p, c) = step(d, Event::Rx(*b));
        all.0.extend(p);
        all.1.extend(c);
    }
    all
}

/// A board that has counted `tubes` tubes and whose meter runs.
fn connected(tubes: i8) -> DeviceState {
    let mut d = DeviceState::new(32);
    step(&mut d, ticks(5));
    let (_, cmds) = reply(&mut d, 126 - 2 * tubes);
    assert_eq!(cmds, vec![AudioCommand::Trim(tubes as usize)]);
    let (_, cmds) = step(&mut d, Event::Audio(AudioEvent::LockAcquired));
    assert_eq!(cmds, vec![AudioCommand::Start(ParamsKind::Wide)]);
    d
}

#[test]
fn counting_board_sends_a_probe_every_ten_ticks() {
    let mut d = DeviceState::new(32);
    let (p, c) = step(&mut d, ticks(4));
    assert!(p.is_empty() && c.is_empty());
    let (p, _) = step(&mut d, ticks(1));
    assert_eq!(p, vec![Pkt::probe_pkt()]);
    let (p, _) = step(&mut d, ticks(9));
    assert!(p.is_empty());
    let (p, _) = step(&mut d, ticks(1));
    assert_eq!(p, vec![Pkt::probe_pkt()]);
    let (p, _) = step(&mut d, ticks(20));
    assert_eq!(p, vec![Pkt::probe_pkt(), Pkt::probe_pkt()]);
}

#[test]
fn reply_to_probe_counts_tubes() {
    let mut d = DeviceState::new(32);
    step(&mut d, ticks(5));
    // Two four-tube boards: 16 hops out and back.
    let (p, c) = reply(&mut d, 110);
    assert!(p.is_empty());
    assert_eq!(c, vec![AudioCommand::Trim(8)]);
    // Connected now: the timer no longer sends probes.
    let (p, _) = step(&mut d, ticks(30));
    assert!(p.is_empty());
}

#[test]
fn odd_or_wrong_replies_start_the_count_over() {
    let mut d = DeviceState::new(32);
    step(&mut d, ticks(5));
    let (_, c) = reply(&mut d, 111);
    assert!(c.is_empty());
    // Waiting again: the next probe goes out 5 ticks later.
    let (p, _) = step(&mut d, ticks(4));
    assert!(p.is_empty());
    let (p, _) = step(&mut d, ticks(1));
    assert_eq!(p, vec![Pkt::probe_pkt()]);
    let frame = Pkt::mk_pkt(110, level(5)).unwrap().format();
    let mut cmds = vec![];
    for b in frame.iter() {
        cmds.extend(step(&mut d, Event::Rx(*b)).1);
    }
    assert!(cmds.is_empty());
    // Bytes while waiting are ignored.
    let (_, c) = reply(&mut d, 110);
    assert!(c.is_empty());
}

#[test]
fn too_many_tubes_keep_all_bands() {
    let mut d = DeviceState::new(4);
    step(&mut d, ticks(5));
    let (_, c) = reply(&mut d, 110);
    assert_eq!(c, vec![AudioCommand::Trim(4)]);
}

#[test]
fn events_during_the_count_are_replayed() {
    let mut d = DeviceState::new(32);
    step(&mut d, Event::Switch(SwitchEvent::Activated(Pin::B)));
    step(&mut d, Event::Audio(AudioEvent::LockAcquired));
    step(&mut d, ticks(5));
    let (p, c) = reply(&mut d, 118);
    assert!(p.is_empty());
    assert_eq!(c, vec![AudioCommand::Trim(4), AudioCommand::Start(ParamsKind::Narrow)]);
    // A lock lost during the count is not replayed.
    let mut d = DeviceState::new(32);
    step(&mut d, Event::Audio(AudioEvent::LockAcquired));
    step(&mut d, Event::Audio(AudioEvent::LockLost));
    step(&mut d, ticks(5));
    let (_, c) = reply(&mut d, 118);
    assert_eq!(c, vec![AudioCommand::Trim(4)]);
}

#[test]
fn switch_darkens_tubes_during_the_countdown() {
    let mut d = connected(3);
    let (p, c) = step(&mut d, Event::Switch(SwitchEvent::Activated(Pin::B)));
    assert!(p.is_empty());
    assert_eq!(c, vec![AudioCommand::Retune(ParamsKind::Narrow)]);
    let (p, _) = step(&mut d, ticks(1));
    let dark: Vec<Pkt> = (0..3).rev().map(|i| Pkt::mk_pkt(i, level(0)).unwrap()).collect();
    assert_eq!(p, dark);
    let (p, _) = step(&mut d, ticks(2));
    assert!(p.is_empty());
    // Tubes on: levels go out, the farthest tube first.
    let (p, _) = step(&mut d, Event::Audio(AudioEvent::Levels(vec![level(1), level(2), level(3)])));
    assert_eq!(
        p,
        vec![
            Pkt::mk_pkt(2, level(3)).unwrap(),
            Pkt::mk_pkt(1, level(2)).unwrap(),
            Pkt::mk_pkt(0, level(1)).unwrap(),
        ]
    );
    // A new lock in narrow mode uses the narrow parameters.
    let (_, c) = step(&mut d, Event::Audio(AudioEvent::LockAcquired));
    assert_eq!(c, vec![AudioCommand::Start(ParamsKind::Narrow)]);
    let (_, c) = step(&mut d, Event::Audio(AudioEvent::LockLost));
    assert_eq!(c, vec![AudioCommand::Disconnect]);
    // With the meter stopped, levels are not sent and no retune is asked.
    let (p, _) = step(&mut d, Event::Audio(AudioEvent::Levels(vec![level(1)])));
    assert!(p.is_empty());
    let (_, c) = step(&mut d, Event::Switch(SwitchEvent::Activated(Pin::C)));
    assert!(c.is_empty());
}

#[test]
fn calibration_lights_all_tubes() {
    let mut d = connected(2);
    step(&mut d, Event::Switch(SwitchEvent::Activated(Pin::D)));
    let (p, _) = step(&mut d, ticks(3));
    let full: Vec<Pkt> = (0..2).rev().map(|i| Pkt::mk_pkt(i, level(0x3FFF)).unwrap()).collect();
    assert_eq!(p, full);
    // Levels are kept from the tubes while calibrating.
    let (p, _) = step(&mut d, Event::Audio(AudioEvent::Levels(vec![level(1), level(2)])));
    assert!(p.is_empty());
    // Tubes off: nothing is sent once settled.
    step(&mut d, Event::Switch(SwitchEvent::Activated(Pin::A)));
    let (p, _) = step(&mut d, ticks(5));
    assert!(p.is_empty());
    let (p, c) = step(&mut d, Event::Rx(7));
    assert!(p.is_empty() && c.is_empty());
}

#[test]
fn audio_state_reports_its_bands() {
    assert_eq!(AudioState::Disconnected { bands: 5 }.num_bands(), 5);
    assert_eq!(AudioState::Running { bands: 7 }.num_bands(), 7);
}

#[test]
fn probe_through_a_chain_counts_its_tubes() {
    // Three four-tube boards; the probe goes out through each and comes back
    // through each, every pass counting its hop count down by 4.
    let mut d = DeviceState::new(32);
    let (mut frames, _) = step(&mut d, ticks(5));
    let mut parsers = vec![ParseState::new(); 6];
    for parser in parsers.iter_mut() {
        let mut next = vec![];
        for p in frames.iter() {
            for b in p.format().iter() {
                if let Some(PktEvent::Send { pkt }) = parser.step(&[0u8, 1, 2, 3], *b) {
                    next.push(pkt);
                }
            }
        }
        frames = next;
    }
    assert_eq!(frames, vec![Pkt::mk_pkt(102, level(0)).unwrap()]);
    let mut cmds = vec![];
    for b in frames[0].format().iter() {
        cmds.extend(step(&mut d, Event::Rx(*b)).1);
    }
    assert_eq!(cmds, vec![AudioCommand::Trim(12)]);
}

#[test]
fn large_meters_count_tubes_too() {
    let mut d = DeviceState::new(300);
    step(&mut d, ticks(5));
    let (_, c) = reply(&mut d, 0);
    assert_eq!(c, vec![AudioCommand::Trim(63)]);
}
