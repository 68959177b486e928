use vstd::prelude::*;

use crate::protocol::{parser_next, parser_output, Brightness, ParseState, Pkt};

verus! {

/// Why a reply to the probe does not give a tube count.
#[derive(Clone, Copy, Debug, PartialEq, Eq)]
pub enum DetectError {
    /// The hop count went down by an odd number.
    OddReply,
    /// The reply is not a `SetLevel` of level 0.
    InvalidReply,
}

/// The tube count that a reply to the probe gives. The probe's hop count goes
/// down by one for each tube it passes, and it passes each tube twice, out
/// and back.
pub open spec fn reply_tubes(pkt: Pkt) -> Result<usize, DetectError> {
    match pkt {
        Pkt::SetLevel { ttl, brightness } => if brightness@ == 0 {
            if (126 - ttl) % 2 == 1 {
                Err(DetectError::OddReply)
            } else {
                Ok(((126 - ttl) / 2) as usize)
            }
        } else {
            Err(DetectError::InvalidReply)
        },
        _ => Err(DetectError::InvalidReply),
    }
}

/// Takes the byte `byte` read while waiting for the reply to the probe:
/// `None` while no packet is complete, and then the tube count or why the
/// reply gives none.
pub fn detect_step(parser: &mut ParseState, byte: u8) -> (r: Option<Result<usize, DetectError>>)
    ensures
        final(parser)@ == parser_next(old(parser)@, byte),
        r == match parser_output(old(parser)@, byte) {
            None => None,
            Some(pkt) => Some(reply_tubes(pkt)),
        },
{
    match parser.step_(byte) {
        None => None,
        Some(pkt) => match pkt {
            Pkt::SetLevel { ttl, brightness } => {
                if brightness.value() == 0 {
                    let diff = (Pkt::PROBE_TTL - ttl) as usize;
                    let num_tubes = diff / 2;
                    assert((diff & 1) == diff % 2) by (bit_vector);
                    if (diff & 1) == 1 {
                        Some(Err(DetectError::OddReply))
                    } else {
                        Some(Ok(num_tubes))
                    }
                } else {
                    Some(Err(DetectError::InvalidReply))
                }
            },
            _ => Some(Err(DetectError::InvalidReply)),
        },
    }
}

/// The frames that set tube `i` to `levels[i]`, the farthest tube first, so
/// that all tubes change within a few frames of each other.
pub open spec fn pipe_frame_seq(levels: Seq<Brightness>) -> Seq<Seq<u8>> {
    Seq::new(
        levels.len(),
        |j: int|
            (Pkt::SetLevel {
                ttl: (levels.len() - 1 - j) as i8,
                brightness: levels[levels.len() - 1 - j],
            }).spec_format(),
    )
}

/// The frames for one line of levels piped to the tubes.
pub fn pipe_frames(levels: &Vec<Brightness>) -> (r: Vec<[u8; 6]>)
    requires
        levels@.len() <= 126,
    ensures
        r@.len() == levels@.len(),
        forall|j: int| 0 <= j < r@.len() ==> #[trigger] r@[j]@ == pipe_frame_seq(levels@)[j],
{
    let n = levels.len();
    let mut frames: Vec<[u8; 6]> = Vec::new();
    let mut i = n;
    while i > 0
        invariant
            i <= n <= 126,
            n == levels@.len(),
            frames@.len() == n - i,
            forall|j: int| 0 <= j < frames@.len() ==> #[trigger] frames@[j]@ == pipe_frame_seq(
                levels@,
            )[j],
        decreases i,
    {
        i = i - 1;
        let pkt = Pkt::mk_pkt(i as i8, levels[i]).unwrap();
        frames.push(pkt.format());
    }
    frames
}

} // verus!
