use vumeter::protocol::{Brightness, Event, ParseState, Pkt, PktErr};
use vumeter::shared::{Consumer, RingBuf};

#[derive(Clone, Copy, Debug, PartialEq)]
enum Tube {
    A,
    B,
    C,
    D,
}
use Tube::{A, B, C, D};

fn level(v: u16) -> Brightness {
    Brightness::new(v).unwrap()
}

fn set(ttl: i8, v: u16) -> Pkt {
    Pkt::mk_pkt(ttl, level(v)).unwrap()
}

#[test]
fn test_pkt() {
    // Twenty packets go through a chain of four boards of four tubes each.
    let ps = 4;
    let mut queues: Vec<std::collections::VecDeque<u8>> = vec![std::collections::VecDeque::new(); ps + 1];
    let mut parsers: Vec<ParseState> = vec![ParseState::new(); ps];
    for i in 0..20 {
        let message = Pkt::mk_pkt(i as i8, Brightness::new(i as u16 * 100).unwrap()).unwrap();
        queues[0].extend(message.format().iter());
    }
    let mut updates: Vec<(usize, Tube, u16)> = vec![];
    while queues[0..ps].iter().any(|v| v.len() > 0) {
        for i in 0..ps {
            if let Some(byte) = queues[i].pop_front() {
                match parsers[i].step(&[A, B, C, D], byte) {
                    Some(Event::Send { pkt }) => queues[i + 1].extend(pkt.format().iter()),
                    Some(Event::Update { which, brightness }) => {
                        updates.push((i, which, brightness.value()))
                    },
                    None => {},
                }
            }
        }
    }
    assert_eq!(updates.len(), 16);
    for (k, (board, which, value)) in updates.iter().enumerate() {
        assert_eq!(*board, k / 4);
        assert_eq!(*which, [A, B, C, D][k % 4]);
        assert_eq!(*value, (k as u16) * 100);
    }
    // The last four packets leave the chain, counted down by 16 hops.
    let mut tail = ParseState::new();
    let mut passed = vec![];
    for byte in queues[ps].iter().cloned() {
        if let Some(p) = tail.step_(byte) {
            passed.push(p);
        }
    }
    assert_eq!(passed, vec![set(0, 1600), set(1, 1700), set(2, 1800), set(3, 1900)]);
    assert_eq!(Pkt::parse(Pkt::format(set(27, 1022))), Ok(set(27, 1022)));
}

#[test]
fn test_remapper() {
    let expected = [0u32, 0, 1, 6, 12, 99, 100];
    for (x, e) in [0u16, 100, 200, 1000, 2000, 0x3FF0, 0x3FFF].iter().zip(expected.iter()) {
        let brightness = Brightness::new(*x).unwrap();
        assert_eq!(brightness.map_to(0, 100), *e);
    }
}

#[test]
fn brightness_new_rejects_values_above_14_bits() {
    assert_eq!(Brightness::new(0x3FFF).map(|b| b.value()), Some(0x3FFF));
    assert!(Brightness::new(0x4000).is_none());
    assert!(Brightness::new(u16::MAX).is_none());
    assert_eq!(Brightness::zero().value(), 0);
    assert_eq!(Brightness::MAX_BRIGHTNESS, 0x3FFF);
}

#[test]
fn map_to_hits_both_ends() {
    assert_eq!(level(0).map_to(7, 1007), 7);
    assert_eq!(level(0x3FFF).map_to(7, 1007), 1007);
    assert_eq!(level(0x3FFF).map_to(0, u32::MAX), u32::MAX);
    assert_eq!(level(0x2000).map_to(0, 16383), 0x2000);
    assert_eq!(level(5).map_to(3, 3), 3);
}

#[test]
fn mk_pkt_accepts_hop_counts_below_the_probe() {
    assert!(Pkt::mk_pkt(0, level(1)).is_some());
    assert!(Pkt::mk_pkt(125, level(1)).is_some());
    assert!(Pkt::mk_pkt(126, level(1)).is_none());
    assert!(Pkt::mk_pkt(127, level(1)).is_none());
    assert!(Pkt::mk_pkt(-1, level(1)).is_none());
}

#[test]
fn format_gives_the_known_frames() {
    assert_eq!(set(1, 0x1234).format(), [0xFF, 1, 36, 52, 46, 59]);
    assert_eq!(Pkt::probe_pkt().format(), [0xFF, 126, 0, 0, 83, 84]);
    assert_eq!(Pkt::PKT_LEN, 6);
    assert_eq!(Pkt::PROBE_TTL, 126);
    assert_eq!(Pkt::FWD_TTL, 127);
}

#[test]
fn parse_undoes_format() {
    let pkts = [
        set(0, 0),
        set(5, 0x3FFF),
        set(125, 0x2AAA),
        Pkt::probe_pkt(),
        Pkt::Forward { val: 0 },
        Pkt::Forward { val: 0xBEF },
        Pkt::Forward { val: 0x3FFF },
    ];
    for p in pkts.iter() {
        assert_eq!(Pkt::parse(p.format()), Ok(*p));
    }
}

#[test]
fn parse_reports_each_error() {
    let good = set(3, 1000).format();
    let mut bad_header = good;
    bad_header[0] = 0xFE;
    assert_eq!(Pkt::parse(bad_header), Err(PktErr::BadHeader));
    let mut too_big = good;
    too_big[2] = 0x80;
    assert_eq!(Pkt::parse(too_big), Err(PktErr::TooBig));
    let mut bad_sum = good;
    bad_sum[4] = (bad_sum[4] + 1) & 0x7F;
    assert_eq!(Pkt::parse(bad_sum), Err(PktErr::SumCheckFailed));
    let mut bad_xor = good;
    bad_xor[5] = (bad_xor[5] + 1) & 0x7F;
    assert_eq!(Pkt::parse(bad_xor), Err(PktErr::XorCheckFailed));
    // A changed payload byte is caught by the sum.
    let mut changed = good;
    changed[3] = (changed[3] + 1) & 0x7F;
    assert_eq!(Pkt::parse(changed), Err(PktErr::SumCheckFailed));
}

#[test]
fn frame_iterator_hands_out_the_frame() {
    let p = set(9, 77);
    let mut it = p.into_iter();
    assert_eq!(it.len(), 6);
    let mut got = vec![];
    while let Some(b) = it.next() {
        got.push(b);
    }
    assert_eq!(got, p.format().to_vec());
    assert_eq!(it.len(), 0);
    assert_eq!(it.next(), None);
}

#[test]
fn parser_reads_a_frame_from_any_state() {
    let p = set(12, 4321);
    for prefix in [vec![], vec![0xFF, 1, 2], vec![5, 6, 7, 8, 9], vec![0x80], vec![0xFF]].iter() {
        let mut parser = ParseState::new();
        for b in prefix.iter() {
            parser.step_(*b);
        }
        let frame = p.format();
        for b in frame[..5].iter() {
            assert_eq!(parser.step_(*b), None);
        }
        assert_eq!(parser.step_(frame[5]), Some(p));
    }
}

#[test]
fn parser_drops_a_frame_on_a_high_byte() {
    let frame = set(1, 2).format();
    let mut parser = ParseState::new();
    for b in frame[..3].iter() {
        assert_eq!(parser.step_(*b), None);
    }
    assert_eq!(parser.step_(0x90), None);
    for b in frame[3..].iter() {
        assert_eq!(parser.step_(*b), None);
    }
    // A frame that fails its checks yields nothing.
    let mut corrupt = frame;
    corrupt[5] = (corrupt[5] + 1) & 0x7F;
    for b in corrupt.iter() {
        assert_eq!(parser.step_(*b), None);
    }
}

#[test]
fn parser_step_forwards_with_fewer_hops() {
    let mut parser = ParseState::new();
    let mut last = None;
    for b in set(6, 50).format().iter() {
        last = parser.step(&[10u8, 20, 30, 40], *b);
    }
    match last {
        Some(Event::Send { pkt }) => assert_eq!(pkt, set(2, 50)),
        _ => panic!("expected a forwarded packet"),
    }
    let mut last = None;
    for b in set(2, 50).format().iter() {
        last = parser.step(&[10u8, 20, 30, 40], *b);
    }
    match last {
        Some(Event::Update { which, brightness }) => {
            assert_eq!(which, 30);
            assert_eq!(brightness.value(), 50);
        },
        _ => panic!("expected an update"),
    }
    let mut last = None;
    for b in (Pkt::Forward { val: 9 }).format().iter() {
        last = parser.step(&[10u8, 20, 30, 40], *b);
    }
    match last {
        Some(Event::Send { pkt }) => assert_eq!(pkt, Pkt::Forward { val: 9 }),
        _ => panic!("expected a forwarded packet"),
    }
}

#[test]
fn ring_buffer_takes_whole_frames_only() {
    let mut rb: RingBuf<u8> = RingBuf::new(vec![0; 8]);
    rb.consume(set(1, 2));
    assert_eq!(rb.len(), 6);
    rb.consume(set(3, 4));
    assert_eq!(rb.len(), 6);
    let mut out = vec![];
    while let Some(b) = rb.with_front(Some) {
        out.push(b);
    }
    assert_eq!(out, set(1, 2).format().to_vec());
}
