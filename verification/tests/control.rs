use vumeter::control::{detect_step, pipe_frames, DetectError};
use vumeter::protocol::{Brightness, ParseState, Pkt};

fn feed(parser: &mut ParseState, pkt: Pkt) -> Option<Result<usize, DetectError>> {
    let mut r = None;
    for b in pkt.format().iter() {
        r = detect_step(parser, *b);
    }
    r
}

#[test]
fn detect_counts_tubes_from_the_reply() {
    let zero = Brightness::new(0).unwrap();
    let mut parser = ParseState::new();
    assert_eq!(feed(&mut parser, Pkt::mk_pkt(118, zero).unwrap()), Some(Ok(4)));
    assert_eq!(feed(&mut parser, Pkt::probe_pkt()), Some(Ok(0)));
    assert_eq!(feed(&mut parser, Pkt::mk_pkt(119, zero).unwrap()), Some(Err(DetectError::OddReply)));
    let lit = Brightness::new(3).unwrap();
    assert_eq!(
        feed(&mut parser, Pkt::mk_pkt(118, lit).unwrap()),
        Some(Err(DetectError::InvalidReply))
    );
    assert_eq!(feed(&mut parser, Pkt::Forward { val: 0 }), Some(Err(DetectError::InvalidReply)));
    assert_eq!(detect_step(&mut parser, 0xFF), None);
}

#[test]
fn pipe_sends_the_farthest_tube_first() {
    let levels: Vec<Brightness> = [0u16, 100, 0x3FFF].iter().map(|v| Brightness::new(*v).unwrap()).collect();
    let frames = pipe_frames(&levels);
    let expected: Vec<[u8; 6]> = (0..3)
        .rev()
        .map(|i| Pkt::mk_pkt(i as i8, levels[i]).unwrap().format())
        .collect();
    assert_eq!(frames, expected);
    assert!(pipe_frames(&vec![]).is_empty());
}
