use vstd::prelude::*;

use crate::shared::{Consumer, RingBuf};

verus! {

/// A tube level: a 14-bit value, from 0 (dark) to `MAX_BRIGHTNESS` (fully lit).
#[derive(Clone, Copy, Debug, PartialEq, Eq)]
pub struct Brightness(u16);

impl View for Brightness {
    type V = u16;

    closed spec fn view(&self) -> u16 {
        self.0
    }
}

/// The number of distinct levels: a level fits in 14 bits.
pub open spec fn brightness_levels() -> int {
    0x4000
}

/// `x` scaled from `[0, MAX_BRIGHTNESS]` to `[out_lo, out_hi]`, rounding down.
pub open spec fn spec_map_to(x: u16, out_lo: u32, out_hi: u32) -> int {
    out_lo + (x * (out_hi - out_lo)) / 0x3FFF
}

/// The level `v`, as a value of the specification.
pub closed spec fn spec_brightness(v: u16) -> Brightness {
    Brightness(v)
}

/// The level built from a value has that value.
pub broadcast proof fn lemma_spec_brightness_view(v: u16)
    ensures
        #[trigger] spec_brightness(v)@ == v,
{
}

/// A level is determined by its value.
pub broadcast proof fn lemma_spec_brightness_of_view(b: Brightness)
    ensures
        #[trigger] spec_brightness(b@) == b,
{
}

impl Brightness {
    #[verifier::type_invariant]
    spec fn inv(self) -> bool {
        self.0 < 0x4000
    }

    pub const MAX_BRIGHTNESS: u16 = 0x3FFF;

    /// The dark level.
    pub fn zero() -> (r: Brightness)
        ensures
            r@ == 0,
    {
        Brightness(0)
    }

    /// The level `val`, where it fits in 14 bits.
    pub fn new(val: u16) -> (r: Option<Brightness>)
        ensures
            r is Some <==> val < 0x4000,
            r matches Some(b) ==> b@ == val,
    {
        if val < 0x4000 {
            Some(Brightness(val))
        } else {
            None
        }
    }

    /// Every level fits in 14 bits.
    pub fn value(&self) -> (r: u16)
        ensures
            r == self@,
            r < 0x4000,
    {
        proof {
            use_type_invariant(self);
        }
        self.0
    }

    /// The level mapped linearly onto `[out_lo, out_hi]`: 0 goes to `out_lo`,
    /// `MAX_BRIGHTNESS` to `out_hi`, and the result is rounded down.
    pub fn map_to(&self, out_lo: u32, out_hi: u32) -> (r: u32)
        requires
            out_lo <= out_hi,
        ensures
            r == spec_map_to(self@, out_lo, out_hi),
            out_lo <= r <= out_hi,
    {
        proof {
            use_type_invariant(self);
        }
        let x = self.0;
        let in_lo: u16 = 0;
        let in_hi: u16 = 0x3FFF;
        let in_diff = in_hi - in_lo;
        let out_diff = out_hi - out_lo;
        let x = x - in_lo;
        assert(x * out_diff <= 0x3FFF * 0xFFFF_FFFFu64) by (nonlinear_arith)
            requires
                x <= 0x3FFF,
                out_diff <= 0xFFFF_FFFFu64,
        ;
        let prod: u64 = x as u64 * out_diff as u64;
        assert(prod <= 0x3FFF * (out_diff as int)) by (nonlinear_arith)
            requires
                prod == x * out_diff,
                x <= 0x3FFF,
        ;
        assert(prod / 0x3FFF <= out_diff as int) by (nonlinear_arith)
            requires
                prod <= 0x3FFF * (out_diff as int),
        ;
        let x = (prod / in_diff as u64) as u32;
        x + out_lo
    }
}

/// A packet of the tube protocol.
#[derive(Clone, Copy, Debug, PartialEq, Eq)]
pub enum Pkt {
    /// Set the tube `ttl` hops further down the chain to `brightness`.
    SetLevel { ttl: i8, brightness: Brightness },
    /// A value passed along the whole chain.
    Forward { val: u16 },
}

/// Why a six-byte frame is not a packet.
#[derive(Debug, PartialEq, Eq)]
pub enum PktErr {
    BadHeader,
    TooBig,
    SumCheckFailed,
    XorCheckFailed,
}

/// The running byte sum of the checksum, starting from `0b0101_0101` and
/// wrapping at 256.
pub open spec fn checksum_sum(s: Seq<u8>) -> u8
    decreases s.len(),
{
    if s.len() == 0 {
        0x55
    } else {
        ((checksum_sum(s.drop_last()) + s.last()) % 256) as u8
    }
}

/// The running exclusive or of the checksum, starting from `0b0010_1010`.
pub open spec fn checksum_xor(s: Seq<u8>) -> u8
    decreases s.len(),
{
    if s.len() == 0 {
        0x2A
    } else {
        checksum_xor(s.drop_last()) ^ s.last()
    }
}

/// The two check bytes of a frame's payload, each cut to 7 bits.
pub open spec fn spec_checksums(s: Seq<u8>) -> (u8, u8) {
    (checksum_sum(s) & 0x7F, checksum_xor(s) & 0x7F)
}

impl Pkt {
    pub const PROBE_TTL: i8 = 126;

    pub const FWD_TTL: i8 = 127;

    pub const PKT_LEN: usize = 6;

    /// The packets that a frame can carry: a `SetLevel` whose hop count is neither
    /// negative nor the forward marker 127, or a `Forward` of a 14-bit value.
    pub open spec fn valid(self) -> bool {
        match self {
            Pkt::SetLevel { ttl, brightness } => 0 <= ttl <= 126 && brightness@ < 0x4000,
            Pkt::Forward { val } => val < 0x4000,
        }
    }

    /// The three payload bytes: the hop count (127 for `Forward`), then the
    /// 14-bit value, high 7 bits first.
    pub open spec fn spec_payload(self) -> Seq<u8> {
        match self {
            Pkt::SetLevel { ttl, brightness } => seq![
                ttl as u8,
                (brightness@ >> 7u16) as u8,
                (brightness@ & 0x7Fu16) as u8,
            ],
            Pkt::Forward { val } => seq![127u8, (val >> 7u16) as u8, (val & 0x7Fu16) as u8],
        }
    }

    /// The frame of a packet: the header byte `0xFF`, the payload, the two
    /// check bytes.
    pub open spec fn spec_format(self) -> Seq<u8> {
        let data = self.spec_payload();
        let (sum, xor) = spec_checksums(data);
        seq![0xFFu8, data[0], data[1], data[2], sum, xor]
    }

    /// What a six-byte frame decodes to. The checks are made in this order:
    /// header, 7-bit bytes, sum, exclusive or.
    pub open spec fn spec_parse(buf: Seq<u8>) -> Result<Pkt, PktErr> {
        if buf[0] != 0xFF {
            Err(PktErr::BadHeader)
        } else if exists|i: int| 1 <= i < 6 && #[trigger] buf[i] > 127 {
            Err(PktErr::TooBig)
        } else if spec_checksums(buf.subrange(1, 4)).0 != buf[4] {
            Err(PktErr::SumCheckFailed)
        } else if spec_checksums(buf.subrange(1, 4)).1 != buf[5] {
            Err(PktErr::XorCheckFailed)
        } else {
            let data = (buf[2] * 128 + buf[3]) as u16;
            let ttl = buf[1] as i8;
            if ttl == 127 {
                Ok(Pkt::Forward { val: data })
            } else {
                Ok(Pkt::SetLevel { ttl, brightness: spec_brightness(data) })
            }
        }
    }

    /// The probe: a `SetLevel` of level 0 with the largest hop count, which each
    /// board on the chain counts down.
    pub fn probe_pkt() -> (r: Pkt)
        ensures
            r == (Pkt::SetLevel { ttl: 126, brightness: spec_brightness(0) }),
    {
        Pkt::SetLevel { ttl: Pkt::PROBE_TTL, brightness: Brightness::zero() }
    }

    /// A `SetLevel` packet for the tube `ttl` hops away, for `0 <= ttl < 126`.
    pub fn mk_pkt(ttl: i8, brightness: Brightness) -> (r: Option<Pkt>)
        ensures
            r is Some <==> 0 <= ttl < 126,
            r is Some ==> r == Some(Pkt::SetLevel { ttl, brightness }),
    {
        if ttl >= 0 && ttl < Pkt::PROBE_TTL {
            Some(Pkt::SetLevel { ttl, brightness })
        } else {
            None
        }
    }

    fn checksums(data: &[u8]) -> (r: (u8, u8))
        ensures
            r == spec_checksums(data@),
    {
        let mut sum: u8 = 0x55;
        let mut xor: u8 = 0x2A;
        let mut i: usize = 0;
        while i < data.len()
            invariant
                0 <= i <= data@.len(),
                sum == checksum_sum(data@.subrange(0, i as int)),
                xor == checksum_xor(data@.subrange(0, i as int)),
            decreases data@.len() - i,
        {
            let b = data[i];
            assert(data@.subrange(0, i + 1).drop_last() =~= data@.subrange(0, i as int));
            sum = sum.wrapping_add(b);
            xor = xor ^ b;
            i = i + 1;
        }
        assert(data@.subrange(0, data@.len() as int) =~= data@);
        let mask: u8 = 0x7F;
        (sum & mask, xor & mask)
    }

    /// The six-byte frame of the packet.
    pub fn format(self) -> (r: [u8; 6])
        ensures
            r@ == self.spec_format(),
            self.valid() ==> Pkt::spec_parse(r@) == Ok::<Pkt, PktErr>(self),
    {
        proof {
            if self.valid() {
                lemma_format_parse_roundtrip(self);
            }
        }
        let data: [u8; 3] = match self {
            Pkt::SetLevel { ttl, brightness } => [
                ttl as u8,
                (brightness.0 >> 7u16) as u8,
                (brightness.0 & 0x7Fu16) as u8,
            ],
            Pkt::Forward { val } => [Pkt::FWD_TTL as u8, (val >> 7u16) as u8, (val & 0x7Fu16) as u8],
        };
        assert(data@ =~= self.spec_payload());
        let (sum, xor) = Self::checksums(data.as_slice());
        let r = [0xFFu8, data[0], data[1], data[2], sum, xor];
        assert(r@ =~= self.spec_format());
        r
    }

    /// The packet in a six-byte frame, or why there is none.
    pub fn parse(buf: [u8; 6]) -> (r: Result<Pkt, PktErr>)
        ensures
            r == Pkt::spec_parse(buf@),
            r matches Ok(p) ==> p.valid() && p.spec_format() == buf@,
    {
        proof {
            if Pkt::spec_parse(buf@) is Ok {
                lemma_parse_format_roundtrip(buf@);
            }
        }
        if buf[0] != 0xFF {
            return Err(PktErr::BadHeader);
        }
        let mut i: usize = 1;
        while i < 6
            invariant
                1 <= i <= 6,
                buf@[0] == 0xFF,
                forall|j: int| 1 <= j < i ==> buf@[j] <= 127,
            decreases 6 - i,
        {
            if buf[i] > 127 {
                assert(buf@[i as int] > 127);
                return Err(PktErr::TooBig);
            }
            i = i + 1;
        }
        let (sum, xor) = Self::checksums(vstd::slice::slice_subrange(buf.as_slice(), 1, 4));
        if sum != buf[4] {
            return Err(PktErr::SumCheckFailed);
        }
        if xor != buf[5] {
            return Err(PktErr::XorCheckFailed);
        }
        let hi = buf[2];
        let lo = buf[3];
        assert(((hi as u16) << 7u16) + (lo as u16) == hi * 128 + lo) by (bit_vector)
            requires
                hi <= 127,
                lo <= 127,
        ;
        let data = ((hi as u16) << 7u16) + (lo as u16);
        let brightness = Brightness::new(data).unwrap();
        let ttl = buf[1] as i8;
        if ttl == Pkt::FWD_TTL {
            Ok(Pkt::Forward { val: data })
        } else {
            Ok(Pkt::SetLevel { ttl, brightness })
        }
    }
}

/// The bytes of a packet's frame, handed out one at a time.
pub struct PktIter {
    bytes: [u8; 6],
    i: usize,
}

impl PktIter {
    #[verifier::type_invariant]
    spec fn inv(self) -> bool {
        self.i <= 6
    }
}

impl View for PktIter {
    type V = Seq<u8>;

    /// The bytes not yet handed out.
    closed spec fn view(&self) -> Seq<u8> {
        self.bytes@.subrange(self.i as int, 6)
    }
}

impl PktIter {
    /// The next byte, if any is left.
    pub fn next(&mut self) -> (r: Option<u8>)
        ensures
            old(self)@.len() == 0 ==> r is None && final(self)@ == old(self)@,
            old(self)@.len() > 0 ==> r == Some(old(self)@[0]) && final(self)@ == old(self)@.drop_first(),
    {
        proof {
            use_type_invariant(&*self);
        }
        if self.i < 6 {
            let byte = self.bytes[self.i];
            let ghost before = self@;
            self.i = self.i + 1;
            assert(self@ =~= before.drop_first());
            Some(byte)
        } else {
            None
        }
    }

    /// The number of bytes left.
    pub fn len(&self) -> (r: usize)
        ensures
            r == self@.len(),
    {
        proof {
            use_type_invariant(self);
        }
        Pkt::PKT_LEN - self.i
    }
}

impl Pkt {
    /// The bytes of the packet's frame, in order.
    pub fn into_iter(&self) -> (r: PktIter)
        ensures
            r@ == self.spec_format(),
    {
        let r = PktIter { bytes: (*self).format(), i: 0 };
        assert(r@ =~= self.spec_format());
        r
    }
}

impl Consumer<Pkt> for RingBuf<u8> {
    /// Queues the packet's six-byte frame when there is room for all of it,
    /// and nothing otherwise.
    fn consume(&mut self, pkt: Pkt)
        ensures
            final(self)@ == queued_frame(old(self)@, old(self).capacity(), pkt),
            final(self).capacity() == old(self).capacity(),
    {
        let frame = pkt.format();
        let slice: &[u8] = frame.as_slice();
        Consumer::<&[u8]>::consume(self, slice);
    }
}

/// The state of a parser after the byte `x`, the state before being `v`: the
/// buffered bytes and how many of them are received. `0xFF` starts a frame;
/// another byte above 127 drops the frame; a 7-bit byte is stored, and the
/// sixth one completes the frame.
pub open spec fn parser_next(v: (Seq<u8>, nat), x: u8) -> (Seq<u8>, nat) {
    if x == 0xFF {
        (v.0.update(0, 0xFF), 1)
    } else if x > 127 {
        (v.0, 0)
    } else if v.1 + 1 == 6 {
        (v.0.update(v.1 as int, x), 0)
    } else {
        (v.0.update(v.1 as int, x), v.1 + 1)
    }
}

/// What a parser in state `v` reports on the byte `x`: the packet of the
/// frame that `x` completes, where that frame decodes; nothing otherwise.
pub open spec fn parser_output(v: (Seq<u8>, nat), x: u8) -> Option<Pkt> {
    if x == 0xFF || x > 127 || v.1 + 1 != 6 {
        None
    } else {
        match Pkt::spec_parse(v.0.update(v.1 as int, x)) {
            Ok(p) => Some(p),
            Err(_) => None,
        }
    }
}

/// The state after feeding `bytes` to a parser in state `v`, and what it
/// reported on each byte.
pub open spec fn parser_feed(v: (Seq<u8>, nat), bytes: Seq<u8>) -> ((Seq<u8>, nat), Seq<
    Option<Pkt>,
>)
    decreases bytes.len(),
{
    if bytes.len() == 0 {
        (v, Seq::empty())
    } else {
        let (last, outs) = parser_feed(parser_next(v, bytes[0]), bytes.drop_first());
        (last, seq![parser_output(v, bytes[0])] + outs)
    }
}

/// What a board whose tubes are `events` makes of the byte `x`, its parser
/// being in state `v`: a `SetLevel` for one of its own tubes becomes an
/// `Update` of that tube; any other packet is passed on, a `SetLevel` with its
/// hop count less the number of tubes of the board.
pub open spec fn parser_event<A>(v: (Seq<u8>, nat), x: u8, events: Seq<A>) -> Option<Event<A>> {
    match parser_output(v, x) {
        None => None,
        Some(Pkt::Forward { val }) => Some(Event::Send { pkt: Pkt::Forward { val } }),
        Some(Pkt::SetLevel { ttl, brightness }) => if ttl >= events.len() {
            Some(Event::Send { pkt: Pkt::SetLevel { ttl: (ttl - events.len()) as i8, brightness } })
        } else {
            Some(Event::Update { which: events[ttl as int], brightness })
        },
    }
}

/// The queue `q` after a packet `pkt` is handed to it: its frame is appended
/// when there is room for all six bytes.
pub open spec fn queued_frame(q: Seq<u8>, capacity: nat, pkt: Pkt) -> Seq<u8> {
    if capacity - q.len() >= 6 {
        q + pkt.spec_format()
    } else {
        q
    }
}

/// The state of a parser that has just been made: nothing received.
pub open spec fn fresh_parser() -> (Seq<u8>, nat) {
    (seq![0u8, 0u8, 0u8, 0u8, 0u8, 0u8], 0nat)
}

/// A parser that assembles six-byte frames from a byte stream.
#[derive(Clone, Copy)]
pub struct ParseState {
    buffer: [u8; 6],
    received: usize,
}

impl View for ParseState {
    type V = (Seq<u8>, nat);

    /// The six buffered bytes, and how many of them belong to the frame being
    /// received.
    closed spec fn view(&self) -> (Seq<u8>, nat) {
        (self.buffer@, self.received as nat)
    }
}

/// A packet that a parser reports, and what it sends on or applies.
pub enum Event<A> {
    Send { pkt: Pkt },
    Update { which: A, brightness: Brightness },
}

impl ParseState {
    #[verifier::type_invariant]
    spec fn inv(self) -> bool {
        self.received < 6
    }

    /// A parser state: six buffered bytes, fewer than six of them received.
    pub closed spec fn wf_view(v: (Seq<u8>, nat)) -> bool {
        v.0.len() == 6 && v.1 < 6
    }

    /// A parser waiting for a frame.
    pub fn new() -> (r: ParseState)
        ensures
            r@ == fresh_parser(),
            ParseState::wf_view(r@),
    {
        let r = ParseState { buffer: [0u8; 6], received: 0 };
        assert(r@.0 =~= seq![0u8, 0u8, 0u8, 0u8, 0u8, 0u8]);
        r
    }

    /// Takes in the byte `x`; returns the packet that it completes, if any.
    pub fn step_(&mut self, x: u8) -> (r: Option<Pkt>)
        ensures
            ParseState::wf_view(old(self)@),
            ParseState::wf_view(final(self)@),
            final(self)@ == parser_next(old(self)@, x),
            r == parser_output(old(self)@, x),
            r matches Some(p) ==> p.valid(),
    {
        proof {
            use_type_invariant(&*self);
        }
        if x == 0xFF {
            self.buffer[0] = 0xFF;
            self.received = 1;
            None
        } else if x > 127 {
            self.received = 0;
            None
        } else {
            self.buffer[self.received] = x;
            if self.received + 1 == Pkt::PKT_LEN {
                self.received = 0;
                match Pkt::parse(self.buffer) {
                    Ok(p) => Some(p),
                    Err(_) => None,
                }
            } else {
                self.received = self.received + 1;
                None
            }
        }
    }

    /// Takes in the byte `x`. A `SetLevel` for one of the `events.len()`
    /// tubes of this board yields an `Update` of that tube; any other packet
    /// is passed on, a `SetLevel` with its hop count less the tubes of this
    /// board.
    pub fn step<A: Copy>(&mut self, events: &[A], x: u8) -> (r: Option<Event<A>>)
        requires
            events@.len() <= 127,
        ensures
            final(self)@ == parser_next(old(self)@, x),
            r == parser_event(old(self)@, x, events@),
    {
        match self.step_(x) {
            None => None,
            Some(pkt) => match pkt {
                Pkt::Forward { val } => Some(Event::Send { pkt: Pkt::Forward { val } }),
                Pkt::SetLevel { ttl, brightness } => {
                    let len = events.len() as i8;
                    if ttl >= len {
                        Some(Event::Send { pkt: Pkt::SetLevel { ttl: ttl - len, brightness } })
                    } else {
                        Some(Event::Update { which: events[ttl as usize], brightness })
                    }
                },
            },
        }
    }
}

/// A parser, whatever state it is in, reports a valid packet on the last of
/// the six bytes of its frame and nothing before, and is then ready for the
/// next frame.
pub proof fn lemma_parser_reads_frame(v: (Seq<u8>, nat), p: Pkt)
    requires
        ParseState::wf_view(v),
        p.valid(),
    ensures
        parser_feed(v, p.spec_format()) == ((p.spec_format(), 0nat), seq![
            None,
            None,
            None,
            None,
            None,
            Some(p),
        ]),
{
    let f = p.spec_format();
    lemma_format_parse_roundtrip(p);
    lemma_checksums_7bit(p.spec_payload());
    match p {
        Pkt::SetLevel { ttl, brightness } => {
            lemma_hop_count_byte(ttl);
            lemma_split_level(brightness@);
        },
        Pkt::Forward { val } => {
            lemma_split_level(val);
        },
    }
    let v1 = parser_next(v, f[0]);
    let v2 = parser_next(v1, f[1]);
    let v3 = parser_next(v2, f[2]);
    let v4 = parser_next(v3, f[3]);
    let v5 = parser_next(v4, f[4]);
    let v6 = parser_next(v5, f[5]);
    assert(v5.0.update(5, f[5]) =~= f);
    assert(v6 == (f, 0nat));
    let tail5 = f.drop_first().drop_first().drop_first().drop_first().drop_first();
    assert(tail5.drop_first() =~= Seq::<u8>::empty());
    reveal_with_fuel(parser_feed, 7);
    assert(f.drop_first()[0] == f[1]);
    assert(f.drop_first().drop_first()[0] == f[2]);
    assert(f.drop_first().drop_first().drop_first()[0] == f[3]);
    assert(f.drop_first().drop_first().drop_first().drop_first()[0] == f[4]);
    assert(tail5[0] == f[5]);
    assert(parser_feed(v, f).1 =~= seq![None, None, None, None, None, Some(p)]);
}

/// The packet that a board with `tubes` tubes passes on for `p`: a `SetLevel`
/// with its hop count less `tubes`, or `p` itself.
pub open spec fn passed_on(p: Pkt, tubes: nat) -> Pkt {
    match p {
        Pkt::SetLevel { ttl, brightness } => Pkt::SetLevel { ttl: (ttl - tubes) as i8, brightness },
        Pkt::Forward { val } => p,
    }
}

/// A board, whatever state its parser is in, passes on a valid packet that is
/// not for one of its tubes when the last byte of its frame arrives, and does
/// nothing on the bytes before: the same packet, a `SetLevel` with its hop
/// count less the board's tubes.
pub proof fn lemma_board_passes_packet<A>(v: (Seq<u8>, nat), p: Pkt, events: Seq<A>)
    requires
        ParseState::wf_view(v),
        p.valid(),
        p matches Pkt::SetLevel { ttl, .. } ==> ttl >= events.len(),
    ensures
        ({
            let f = p.spec_format();
            let v1 = parser_next(v, f[0]);
            let v2 = parser_next(v1, f[1]);
            let v3 = parser_next(v2, f[2]);
            let v4 = parser_next(v3, f[3]);
            let v5 = parser_next(v4, f[4]);
            &&& parser_event(v, f[0], events) is None
            &&& parser_event(v1, f[1], events) is None
            &&& parser_event(v2, f[2], events) is None
            &&& parser_event(v3, f[3], events) is None
            &&& parser_event(v4, f[4], events) is None
            &&& parser_event(v5, f[5], events) == Some(
                Event::<A>::Send { pkt: passed_on(p, events.len()) },
            )
            &&& parser_next(v5, f[5]) == (f, 0nat)
        }),
{
    let f = p.spec_format();
    lemma_format_parse_roundtrip(p);
    lemma_checksums_7bit(p.spec_payload());
    match p {
        Pkt::SetLevel { ttl, brightness } => {
            lemma_hop_count_byte(ttl);
            lemma_split_level(brightness@);
        },
        Pkt::Forward { val } => {
            lemma_split_level(val);
        },
    }
    let v1 = parser_next(v, f[0]);
    let v2 = parser_next(v1, f[1]);
    let v3 = parser_next(v2, f[2]);
    let v4 = parser_next(v3, f[3]);
    let v5 = parser_next(v4, f[4]);
    assert(v5.0.update(5, f[5]) =~= f);
}

/// The state of a parser in state `v` after the bytes `bytes`.
pub open spec fn parser_after(v: (Seq<u8>, nat), bytes: Seq<u8>) -> (Seq<u8>, nat)
    decreases bytes.len(),
{
    if bytes.len() == 0 {
        v
    } else {
        parser_next(parser_after(v, bytes.drop_last()), bytes.last())
    }
}

/// What a parser in state `v` has been fed once it takes in `bytes`: the
/// part of its buffer that it has received, then `bytes`.
pub open spec fn parser_history(v: (Seq<u8>, nat), bytes: Seq<u8>) -> Seq<u8> {
    v.0.subrange(0, v.1 as int) + bytes
}

/// A parser holds, as the received part of its buffer, the last bytes of what
/// it has been fed.
proof fn lemma_parser_holds_last_bytes(v: (Seq<u8>, nat), bytes: Seq<u8>)
    requires
        ParseState::wf_view(v),
    ensures
        ({
            let s = parser_after(v, bytes);
            let h = parser_history(v, bytes);
            &&& ParseState::wf_view(s)
            &&& s.1 <= h.len()
            &&& s.0.subrange(0, s.1 as int) == h.subrange(h.len() - s.1, h.len() as int)
        }),
    decreases bytes.len(),
{
    let h = parser_history(v, bytes);
    if bytes.len() == 0 {
        assert(h =~= v.0.subrange(0, v.1 as int));
        assert(h.subrange(h.len() - v.1, h.len() as int) =~= h);
    } else {
        let prev = bytes.drop_last();
        lemma_parser_holds_last_bytes(v, prev);
        let h0 = parser_history(v, prev);
        assert(h =~= h0.push(bytes.last()));
        let s0 = parser_after(v, prev);
        let x = bytes.last();
        let s = parser_after(v, bytes);
        assert(s == parser_next(s0, x));
        if x == 0xFF {
            assert(s.0.subrange(0, 1) =~= h.subrange(h.len() - 1, h.len() as int));
        } else if x > 127 {
            assert(s.0.subrange(0, 0) =~= h.subrange(h.len() as int, h.len() as int));
        } else if s0.1 + 1 == 6 {
            assert(s.0.subrange(0, 0) =~= h.subrange(h.len() as int, h.len() as int));
        } else {
            assert(s.0.subrange(0, s.1 as int) =~= s0.0.subrange(0, s0.1 as int).push(x));
            assert(h.subrange(h.len() - s.1, h.len() as int) =~= h0.subrange(
                h0.len() - s0.1,
                h0.len() as int,
            ).push(x));
        }
    }
}

/// What a parser reports is always the decoding of the last six bytes fed
/// to it, whatever state it was in: a parser in state `v`, fed `bytes`,
/// reports a packet on the byte `x` only when at least five bytes came before
/// (counting those it had already received), and the packet is what the last
/// five of them followed by `x` decode to. A byte above 127 other than `0xFF`
/// reports nothing and drops the frame being received.
pub proof fn lemma_parser_output_is_last_frame(v: (Seq<u8>, nat), bytes: Seq<u8>, x: u8)
    requires
        ParseState::wf_view(v),
    ensures
        ({
            let h = parser_history(v, bytes);
            parser_output(parser_after(v, bytes), x) matches Some(p) ==> {
                &&& h.len() >= 5
                &&& Pkt::spec_parse(h.subrange(h.len() - 5, h.len() as int).push(x)) == Ok::<
                    Pkt,
                    PktErr,
                >(p)
            }
        }),
        x > 127 && x != 0xFF ==> parser_output(parser_after(v, bytes), x) is None
            && parser_after(v, bytes.push(x)).1 == 0,
{
    lemma_parser_holds_last_bytes(v, bytes);
    let s = parser_after(v, bytes);
    let h = parser_history(v, bytes);
    assert(bytes.push(x).drop_last() =~= bytes);
    if parser_output(s, x) is Some {
        assert(s.0.update(5, x) =~= h.subrange(h.len() - 5, h.len() as int).push(x)) by {
            assert(s.0.subrange(0, 5) == h.subrange(h.len() - 5, h.len() as int));
            assert forall|i: int| 0 <= i < 5 implies s.0[i] == h.subrange(
                h.len() - 5,
                h.len() as int,
            )[i] by {
                assert(s.0.subrange(0, 5)[i] == s.0[i]);
            }
        }
    }
}

/// Mapping a level onto `[out_lo, out_hi]` is linear with rounding down: 0
/// gives `out_lo`, the highest level gives `out_hi`, a higher level never
/// gives less, and the result `r` is the largest with
/// `(r - out_lo) * MAX_BRIGHTNESS <= x * (out_hi - out_lo)`.
pub proof fn lemma_map_to_linear(x: u16, y: u16, out_lo: u32, out_hi: u32)
    requires
        out_lo <= out_hi,
        x <= 0x3FFF,
        y <= 0x3FFF,
    ensures
        spec_map_to(0, out_lo, out_hi) == out_lo,
        spec_map_to(0x3FFF, out_lo, out_hi) == out_hi,
        x <= y ==> spec_map_to(x, out_lo, out_hi) <= spec_map_to(y, out_lo, out_hi),
        out_lo <= spec_map_to(x, out_lo, out_hi) <= out_hi,
        (spec_map_to(x, out_lo, out_hi) - out_lo) * 0x3FFF <= x * (out_hi - out_lo),
        x * (out_hi - out_lo) < (spec_map_to(x, out_lo, out_hi) - out_lo + 1) * 0x3FFF,
{
    let d: int = out_hi - out_lo;
    assert(0 * d / 0x3FFF == 0) by (nonlinear_arith);
    assert(0x3FFF * d / 0x3FFF == d) by (nonlinear_arith);
    assert(x <= y ==> x * d / 0x3FFF <= y * d / 0x3FFF) by (nonlinear_arith)
        requires
            d >= 0,
    ;
    assert(0 <= x * d / 0x3FFF <= d) by (nonlinear_arith)
        requires
            d >= 0,
            x <= 0x3FFF,
    ;
    assert((x * d / 0x3FFF) * 0x3FFF <= x * d < (x * d / 0x3FFF + 1) * 0x3FFF) by (nonlinear_arith)
        requires
            d >= 0,
            x >= 0,
    ;
}

proof fn lemma_split_level(b: u16)
    requires
        b < 0x4000,
    ensures
        (b >> 7u16) as u8 <= 127,
        (b & 0x7Fu16) as u8 <= 127,
        ((b >> 7u16) as u8) * 128 + ((b & 0x7Fu16) as u8) == b,
{
    assert((b >> 7u16) as u8 <= 127) by (bit_vector)
        requires
            b < 0x4000,
    ;
    assert((b & 0x7Fu16) as u8 <= 127) by (bit_vector);
    assert(((b >> 7u16) as u8) * 128 + ((b & 0x7Fu16) as u8) == b) by (bit_vector)
        requires
            b < 0x4000,
    ;
}

proof fn lemma_join_level(hi: u8, lo: u8)
    requires
        hi <= 127,
        lo <= 127,
    ensures
        ((hi * 128 + lo) as u16) < 0x4000,
        (((hi * 128 + lo) as u16) >> 7u16) as u8 == hi,
        (((hi * 128 + lo) as u16) & 0x7Fu16) as u8 == lo,
{
    assert(((hi * 128 + lo) as u16) < 0x4000) by (bit_vector)
        requires
            hi <= 127,
            lo <= 127,
    ;
    assert((((hi * 128 + lo) as u16) >> 7u16) as u8 == hi) by (bit_vector)
        requires
            hi <= 127,
            lo <= 127,
    ;
    assert((((hi * 128 + lo) as u16) & 0x7Fu16) as u8 == lo) by (bit_vector)
        requires
            hi <= 127,
            lo <= 127,
    ;
}

proof fn lemma_checksums_7bit(s: Seq<u8>)
    ensures
        spec_checksums(s).0 <= 127,
        spec_checksums(s).1 <= 127,
{
    let a = checksum_sum(s);
    let b = checksum_xor(s);
    assert(a & 0x7F <= 127) by (bit_vector);
    assert(b & 0x7F <= 127) by (bit_vector);
}

proof fn lemma_hop_count_byte(t: i8)
    requires
        0 <= t,
    ensures
        t as u8 <= 127,
        (t as u8) as i8 == t,
{
    assert(t as u8 <= 127) by (bit_vector)
        requires
            0 <= t,
    ;
    assert((t as u8) as i8 == t) by (bit_vector)
        requires
            0 <= t,
    ;
}

proof fn lemma_byte_hop_count(x: u8)
    requires
        x <= 127,
    ensures
        0 <= x as i8,
        (x as i8) as u8 == x,
        x as i8 == 127 <==> x == 127,
{
    assert(0 <= x as i8) by (bit_vector)
        requires
            x <= 127,
    ;
    assert((x as i8) as u8 == x) by (bit_vector)
        requires
            x <= 127,
    ;
    assert(x as i8 == 127 <==> x == 127) by (bit_vector)
        requires
            x <= 127,
    ;
}

/// A valid packet comes back unchanged from the decoding of its own frame.
pub proof fn lemma_format_parse_roundtrip(p: Pkt)
    requires
        p.valid(),
    ensures
        Pkt::spec_parse(p.spec_format()) == Ok::<Pkt, PktErr>(p),
{
    broadcast use lemma_spec_brightness_view, lemma_spec_brightness_of_view;

    let data = p.spec_payload();
    let buf = p.spec_format();
    lemma_checksums_7bit(data);
    assert(buf.subrange(1, 4) =~= data);
    match p {
        Pkt::SetLevel { ttl, brightness } => {
            lemma_hop_count_byte(ttl);
            lemma_split_level(brightness@);
        },
        Pkt::Forward { val } => {
            lemma_split_level(val);
        },
    }
    assert(forall|i: int| 1 <= i < 6 ==> #[trigger] buf[i] <= 127);
}

/// A frame that decodes to a packet is that packet's frame, and the packet is
/// valid.
pub proof fn lemma_parse_format_roundtrip(buf: Seq<u8>)
    requires
        buf.len() == 6,
        Pkt::spec_parse(buf) is Ok,
    ensures
        Pkt::spec_parse(buf).unwrap().valid(),
        Pkt::spec_parse(buf).unwrap().spec_format() == buf,
{
    broadcast use lemma_spec_brightness_view, lemma_spec_brightness_of_view;

    assert(buf[1] <= 127 && buf[2] <= 127 && buf[3] <= 127) by {
        if buf[1] > 127 {
            assert(1 <= 1 < 6 && buf[1] > 127);
        }
        if buf[2] > 127 {
            assert(1 <= 2 < 6 && buf[2] > 127);
        }
        if buf[3] > 127 {
            assert(1 <= 3 < 6 && buf[3] > 127);
        }
    }
    lemma_join_level(buf[2], buf[3]);
    lemma_byte_hop_count(buf[1]);
    let p = Pkt::spec_parse(buf).unwrap();
    assert(p.spec_payload() =~= buf.subrange(1, 4));
    assert(p.spec_format() =~= buf);
}

} // verus!
