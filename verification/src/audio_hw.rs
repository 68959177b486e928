use vstd::prelude::*;

use crate::protocol::{
    fresh_parser,
    parser_next,
    parser_output,
    spec_brightness,
    Brightness,
    ParseState,
    Pkt,
};
use crate::shared::Transition;

verus! {

/// One of the four positions of the mode switch.
#[derive(Clone, Copy, Debug, PartialEq, Eq, Structural)]
pub enum Pin {
    A,
    B,
    C,
    D,
}

/// The mode switch was turned to a position.
#[derive(Clone, Copy, Debug, PartialEq, Eq)]
pub enum SwitchEvent {
    Activated(Pin),
}

/// The timer fired this many times since it was last read.
#[derive(Clone, Copy, Debug, PartialEq, Eq)]
pub enum TimerEvent {
    Elapsed(u64),
}

/// What the audio input reports. The meter itself, which turns samples into
/// levels, runs outside this crate: `LockAcquired` stands for a lock at the
/// sample rate that the input reported, and `Levels` for one reading of the
/// meter, the level of each band in order.
pub enum AudioEvent {
    LockLost,
    LockAcquired,
    Levels(Vec<Brightness>),
}

/// What the audio board reacts to.
pub enum Event {
    Audio(AudioEvent),
    Switch(SwitchEvent),
    Timer(TimerEvent),
    Rx(u8),
}

/// Which of the two parameter sets the meter runs with: the normal one, or
/// the narrow one with sharper filters.
#[derive(Clone, Copy, Debug, PartialEq, Eq)]
pub enum ParamsKind {
    Wide,
    Narrow,
}

/// What the meter must do.
#[derive(Clone, Copy, Debug, PartialEq, Eq)]
pub enum AudioCommand {
    /// Tear the running meter down, keeping its buffers.
    Disconnect,
    /// Build the meter, for the sample rate of the latest lock, with these
    /// parameters; a running meter is torn down first.
    Start(ParamsKind),
    /// Rebuild the running meter, at its own sample rate, with these
    /// parameters.
    Retune(ParamsKind),
    /// Cut the meter's buffers down to this many bands.
    Trim(usize),
}

/// Whether the meter runs, and how many bands it has buffers for.
#[derive(Clone, Copy, Debug, PartialEq, Eq)]
pub enum AudioState {
    Disconnected { bands: usize },
    Running { bands: usize },
}

/// The number of bands.
pub open spec fn spec_num_bands(a: AudioState) -> nat {
    match a {
        AudioState::Disconnected { bands } => bands as nat,
        AudioState::Running { bands } => bands as nat,
    }
}

/// Losing the input: a running meter is torn down.
pub open spec fn audio_disconnect(a: AudioState) -> (AudioState, Option<AudioCommand>) {
    match a {
        AudioState::Disconnected { bands } => (a, None),
        AudioState::Running { bands } => (
            AudioState::Disconnected { bands },
            Some(AudioCommand::Disconnect),
        ),
    }
}

/// Gaining the input: the meter is built, or rebuilt, for the new sample rate.
pub open spec fn audio_initialize(a: AudioState, k: ParamsKind) -> (AudioState, AudioCommand) {
    (AudioState::Running { bands: spec_num_bands(a) as usize }, AudioCommand::Start(k))
}

/// New parameters: a running meter is rebuilt with them; a stopped one is
/// left alone.
pub open spec fn audio_change_params(a: AudioState, k: ParamsKind) -> (AudioState, Option<
    AudioCommand,
>) {
    match a {
        AudioState::Disconnected { bands } => (a, None),
        AudioState::Running { bands } => (a, Some(AudioCommand::Retune(k))),
    }
}

impl AudioState {
    /// The number of bands.
    pub fn num_bands(&self) -> (r: usize)
        ensures
            r == spec_num_bands(*self),
        no_unwind
    {
        match self {
            AudioState::Disconnected { bands } => *bands,
            AudioState::Running { bands } => *bands,
        }
    }

    fn disconnect(&mut self) -> (r: Option<AudioCommand>)
        ensures
            (*final(self), r) == audio_disconnect(*old(self)),
        no_unwind
    {
        match *self {
            AudioState::Disconnected { bands } => None,
            AudioState::Running { bands } => {
                *self = AudioState::Disconnected { bands };
                Some(AudioCommand::Disconnect)
            },
        }
    }

    fn initialize(&mut self, params: ParamsKind) -> (r: AudioCommand)
        ensures
            (*final(self), r) == audio_initialize(*old(self), params),
        no_unwind
    {
        let bands = self.num_bands();
        *self = AudioState::Running { bands };
        AudioCommand::Start(params)
    }

    fn change_params(&mut self, params: ParamsKind) -> (r: Option<AudioCommand>)
        ensures
            (*final(self), r) == audio_change_params(*old(self), params),
        no_unwind
    {
        match *self {
            AudioState::Disconnected { bands } => None,
            AudioState::Running { bands } => Some(AudioCommand::Retune(params)),
        }
    }
}

/// How the tubes are driven.
#[derive(Debug, PartialEq, Eq, Copy, Clone)]
pub enum TubeMode {
    Narrow,
    Wide,
}

/// What the audio board shows.
#[derive(Debug, PartialEq, Eq, Copy, Clone)]
pub enum DeviceMode {
    TubesOff,
    Calibrating,
    TubesOn(TubeMode),
}

/// The mode after `n` ticks: a countdown of `ticks` settles on the tick after
/// it reaches 0.
pub open spec fn advance(t: Transition<DeviceMode>, n: nat) -> Transition<DeviceMode> {
    match t {
        Transition::In(s) => Transition::In(s),
        Transition::TransitioningTo { state, ticks } => if n > ticks {
            Transition::In(state)
        } else {
            Transition::TransitioningTo { state, ticks: (ticks - n) as u64 }
        },
    }
}

/// The packets that set all `bands` tubes to `level`, the farthest tube
/// first.
pub open spec fn const_packets(bands: nat, level: u16) -> Seq<Pkt> {
    Seq::new(
        bands,
        |j: int| Pkt::SetLevel { ttl: (bands - 1 - j) as i8, brightness: spec_brightness(level) },
    )
}

/// The packets that set tube `i` to `levels[i]`, the farthest tube first.
pub open spec fn level_packets(levels: Seq<Brightness>) -> Seq<Pkt> {
    Seq::new(
        levels.len(),
        |j: int|
            Pkt::SetLevel {
                ttl: (levels.len() - 1 - j) as i8,
                brightness: levels[levels.len() - 1 - j],
            },
    )
}

/// The parameters that a new lock is met with: the narrow set when the tubes
/// are in, or going to, narrow mode; the normal set otherwise.
pub open spec fn params_for(m: Transition<DeviceMode>) -> ParamsKind {
    match m {
        Transition::In(DeviceMode::TubesOn(TubeMode::Narrow)) => ParamsKind::Narrow,
        Transition::TransitioningTo { state: DeviceMode::TubesOn(TubeMode::Narrow), ticks } =>
            ParamsKind::Narrow,
        _ => ParamsKind::Wide,
    }
}

/// How the meter's state changes with an audio event, the packets it yields,
/// and the command for the meter. Levels become packets only while the meter
/// runs.
pub open spec fn spdif_step(a: AudioState, m: Transition<DeviceMode>, e: AudioEvent) -> (
    AudioState,
    Seq<Pkt>,
    Option<AudioCommand>,
) {
    match e {
        AudioEvent::LockLost => {
            let (a2, c) = audio_disconnect(a);
            (a2, Seq::empty(), c)
        },
        AudioEvent::LockAcquired => {
            let (a2, c) = audio_initialize(a, params_for(m));
            (a2, Seq::empty(), Some(c))
        },
        AudioEvent::Levels(ls) => (
            a,
            if a is Running {
                level_packets(ls@)
            } else {
                Seq::empty()
            },
            None,
        ),
    }
}

/// The mode that a switch position selects, after a countdown of 2 ticks,
/// and the parameter set that it asks for.
pub open spec fn switch_target(pin: Pin) -> (DeviceMode, Option<ParamsKind>) {
    match pin {
        Pin::A => (DeviceMode::TubesOff, None),
        Pin::B => (DeviceMode::TubesOn(TubeMode::Narrow), Some(ParamsKind::Narrow)),
        Pin::C => (DeviceMode::TubesOn(TubeMode::Wide), Some(ParamsKind::Wide)),
        Pin::D => (DeviceMode::Calibrating, None),
    }
}

/// How a connected audio board reacts to an event: its new meter state and
/// mode, the packets it sends, and the command for the meter.
///
/// Timer ticks advance the mode; while it counts down all tubes are dark,
/// while calibrating all are fully lit. The switch starts a countdown to the
/// mode it selects and retunes the meter where that mode asks for other
/// parameters. Audio events go to the meter; its levels reach the tubes only
/// when the tubes are on.
pub open spec fn connected_step(a: AudioState, m: Transition<DeviceMode>, evt: Event) -> (
    AudioState,
    Transition<DeviceMode>,
    Seq<Pkt>,
    Option<AudioCommand>,
) {
    match evt {
        Event::Timer(TimerEvent::Elapsed(i)) => {
            let m2 = advance(m, i as nat);
            let pk = if m2 is TransitioningTo {
                const_packets(spec_num_bands(a), 0)
            } else if m2 == Transition::In(DeviceMode::Calibrating) {
                const_packets(spec_num_bands(a), 0x3FFF)
            } else {
                Seq::empty()
            };
            (a, m2, pk, None)
        },
        Event::Switch(SwitchEvent::Activated(pin)) => {
            let (next, k) = switch_target(pin);
            let (a2, c) = match k {
                Some(k) => audio_change_params(a, k),
                None => (a, None),
            };
            (a2, Transition::TransitioningTo { state: next, ticks: 2 }, Seq::empty(), c)
        },
        Event::Audio(e) => {
            let (a2, pk, c) = spdif_step(a, m, e);
            (
                a2,
                m,
                if m matches Transition::In(DeviceMode::TubesOn(_)) {
                    pk
                } else {
                    Seq::empty()
                },
                c,
            )
        },
        Event::Rx(_) => (a, m, Seq::empty(), None),
    }
}

/// The largest number of tubes a chain can address: packets reach hop counts
/// 0 to 125.
pub open spec fn max_tubes() -> nat {
    126
}

/// An event that a board with `bands` tubes can take: a meter reading has at
/// most as many levels as the chain can address.
pub open spec fn event_ok(evt: Event) -> bool {
    evt matches Event::Audio(AudioEvent::Levels(ls)) ==> ls@.len() <= max_tubes()
}

/// The audio board once the tubes are counted: the meter and the mode.
#[derive(Clone, Copy)]
pub struct ConnectedState {
    audio_state: AudioState,
    mode: Transition<DeviceMode>,
}

impl View for ConnectedState {
    type V = (AudioState, Transition<DeviceMode>);

    closed spec fn view(&self) -> (AudioState, Transition<DeviceMode>) {
        (self.audio_state, self.mode)
    }
}

impl ConnectedState {
    #[verifier::type_invariant]
    spec fn inv(self) -> bool {
        spec_num_bands(self.audio_state) <= max_tubes()
    }

    /// A connected board with the tubes off.
    pub fn new(audio_state: AudioState) -> (r: ConnectedState)
        requires
            spec_num_bands(audio_state) <= max_tubes(),
        ensures
            r@ == (audio_state, Transition::In(DeviceMode::TubesOff)),
    {
        ConnectedState { audio_state, mode: Transition::In(DeviceMode::TubesOff) }
    }

    /// A connected board has no more bands than the chain can address.
    pub fn num_bands(&self) -> (r: usize)
        ensures
            r == spec_num_bands(self@.0),
            r <= max_tubes(),
    {
        proof {
            use_type_invariant(self);
        }
        self.audio_state.num_bands()
    }

    fn const_tubes(&self, level: Brightness, output: &mut Vec<Pkt>)
        ensures
            final(output)@ == old(output)@ + const_packets(spec_num_bands(self@.0), level@),
    {
        proof {
            use_type_invariant(self);
            crate::protocol::lemma_spec_brightness_of_view(level);
        }
        let num_bands = self.audio_state.num_bands();
        let ghost start = output@;
        let mut i = num_bands;
        while i > 0
            invariant
                i <= num_bands <= max_tubes(),
                num_bands == spec_num_bands(self@.0),
                spec_brightness(level@) == level,
                output@ == start + const_packets(num_bands as nat, level@).subrange(
                    0,
                    (num_bands - i) as int,
                ),
            decreases i,
        {
            i = i - 1;
            let pkt = Pkt::mk_pkt(i as i8, level).unwrap();
            output.push(pkt);
            assert(const_packets(num_bands as nat, level@).subrange(0, (num_bands - i) as int)
                =~= const_packets(num_bands as nat, level@).subrange(
                0,
                (num_bands - i - 1) as int,
            ).push(pkt));
        }
        assert(const_packets(num_bands as nat, level@).subrange(0, num_bands as int)
            =~= const_packets(num_bands as nat, level@));
    }

    fn send_levels(levels: &Vec<Brightness>, output: &mut Vec<Pkt>)
        requires
            levels@.len() <= max_tubes(),
        ensures
            final(output)@ == old(output)@ + level_packets(levels@),
    {
        let n = levels.len();
        let ghost start = output@;
        let mut i = n;
        while i > 0
            invariant
                i <= n <= max_tubes(),
                n == levels@.len(),
                output@ == start + level_packets(levels@).subrange(0, (n - i) as int),
            decreases i,
        {
            i = i - 1;
            let pkt = Pkt::mk_pkt(i as i8, levels[i]).unwrap();
            output.push(pkt);
            assert(level_packets(levels@).subrange(0, (n - i) as int) =~= level_packets(
                levels@,
            ).subrange(0, (n - i - 1) as int).push(pkt));
        }
        assert(level_packets(levels@).subrange(0, n as int) =~= level_packets(levels@));
    }

    /// Hands an audio event to the meter; levels are sent to `output` while
    /// the meter runs.
    pub fn step_spdif(&mut self, event: AudioEvent, output: &mut Vec<Pkt>) -> (r: Option<
        AudioCommand,
    >)
        requires
            event_ok(Event::Audio(event)),
        ensures
            ({
                let (a2, pk, c) = spdif_step(old(self)@.0, old(self)@.1, event);
                &&& final(self)@ == (a2, old(self)@.1)
                &&& final(output)@ == old(output)@ + pk
                &&& r == c
            }),
    {
        proof {
            use_type_invariant(&*self);
        }
        match event {
            AudioEvent::LockLost => {
                let r = self.audio_state.disconnect();
                assert(output@ =~= old(output)@ + Seq::<Pkt>::empty());
                r
            },
            AudioEvent::LockAcquired => {
                let params = match self.mode {
                    Transition::In(DeviceMode::TubesOn(TubeMode::Narrow)) => ParamsKind::Narrow,
                    Transition::TransitioningTo {
                        state: DeviceMode::TubesOn(TubeMode::Narrow),
                        ..
                    } => ParamsKind::Narrow,
                    _ => ParamsKind::Wide,
                };
                let c = self.audio_state.initialize(params);
                assert(output@ =~= old(output)@ + Seq::<Pkt>::empty());
                Some(c)
            },
            AudioEvent::Levels(ls) => {
                if let AudioState::Running { .. } = self.audio_state {
                    Self::send_levels(&ls, output);
                } else {
                    assert(output@ =~= old(output)@ + Seq::<Pkt>::empty());
                }
                None
            },
        }
    }

    /// Handles one event; the packets for the tubes are appended to `output`,
    /// and what the meter must do is returned.
    pub fn step(&mut self, evt: Event, output: &mut Vec<Pkt>) -> (r: Option<AudioCommand>)
        requires
            event_ok(evt),
        ensures
            ({
                let (a2, m2, pk, c) = connected_step(old(self)@.0, old(self)@.1, evt);
                &&& final(self)@ == (a2, m2)
                &&& final(output)@ == old(output)@ + pk
                &&& r == c
            }),
    {
        proof {
            use_type_invariant(&*self);
        }
        match evt {
            Event::Timer(TimerEvent::Elapsed(i)) => {
                let ghost m0 = self.mode;
                let mut k: u64 = 0;
                while k < i
                    invariant
                        k <= i,
                        self.mode == advance(m0, k as nat),
                        self.audio_state == old(self)@.0,
                        spec_num_bands(self.audio_state) <= max_tubes(),
                    decreases i - k,
                {
                    self.mode = self.mode.step();
                    k = k + 1;
                }
                if let Transition::TransitioningTo { .. } = self.mode {
                    self.const_tubes(Brightness::zero(), output);
                } else if let Transition::In(DeviceMode::Calibrating) = self.mode {
                    let full = Brightness::new(Brightness::MAX_BRIGHTNESS).unwrap();
                    self.const_tubes(full, output);
                } else {
                    assert(output@ =~= old(output)@ + Seq::<Pkt>::empty());
                }
                None
            },
            Event::Switch(SwitchEvent::Activated(pin)) => {
                let (next_mode, c) = match pin {
                    Pin::A => (DeviceMode::TubesOff, None),
                    Pin::B => {
                        let c = self.audio_state.change_params(ParamsKind::Narrow);
                        (DeviceMode::TubesOn(TubeMode::Narrow), c)
                    },
                    Pin::C => {
                        let c = self.audio_state.change_params(ParamsKind::Wide);
                        (DeviceMode::TubesOn(TubeMode::Wide), c)
                    },
                    Pin::D => (DeviceMode::Calibrating, None),
                };
                self.mode = Transition::TransitioningTo { state: next_mode, ticks: 2 };
                assert(output@ =~= old(output)@ + Seq::<Pkt>::empty());
                c
            },
            Event::Audio(spdif_evt) => {
                if let Transition::In(DeviceMode::TubesOn(_)) = self.mode {
                    self.step_spdif(spdif_evt, output)
                } else {
                    let mut discarded: Vec<Pkt> = Vec::new();
                    let c = self.step_spdif(spdif_evt, &mut discarded);
                    assert(output@ =~= old(output)@ + Seq::<Pkt>::empty());
                    c
                }
            },
            Event::Rx(_) => {
                assert(output@ =~= old(output)@ + Seq::<Pkt>::empty());
                None
            },
        }
    }
}

/// Where the tube count stands: waiting to send a probe, or parsing the
/// reply; each with the ticks left before it moves on.
#[derive(Clone, Copy)]
pub enum InitializerStage {
    Waiting { ticks: usize },
    Parsing { state: ParseState, ticks: usize },
}

/// An initializer stage, the parser taken by its state.
pub ghost enum StageModel {
    Waiting { ticks: nat },
    Parsing { parser: (Seq<u8>, nat), ticks: nat },
}

pub open spec fn stage_model(s: InitializerStage) -> StageModel {
    match s {
        InitializerStage::Waiting { ticks } => StageModel::Waiting { ticks: ticks as nat },
        InitializerStage::Parsing { state, ticks } => StageModel::Parsing {
            parser: state@,
            ticks: ticks as nat,
        },
    }
}

/// Where the count starts over: 4 ticks before the next probe.
pub open spec fn reset_stage() -> StageModel {
    StageModel::Waiting { ticks: 4 }
}

/// The probe packet.
pub open spec fn probe() -> Pkt {
    Pkt::SetLevel { ttl: 126, brightness: spec_brightness(0) }
}

/// The stage after a tick: the wait counts down and then the probe goes out,
/// with 4 ticks to parse a reply; a reply that does not come in time starts
/// the count over.
pub open spec fn tick_stage(s: StageModel) -> StageModel {
    match s {
        StageModel::Waiting { ticks } => if ticks == 0 {
            StageModel::Parsing { parser: fresh_parser(), ticks: 4 }
        } else {
            StageModel::Waiting { ticks: (ticks - 1) as nat }
        },
        StageModel::Parsing { parser, ticks } => if ticks == 0 {
            reset_stage()
        } else {
            StageModel::Parsing { parser, ticks: (ticks - 1) as nat }
        },
    }
}

/// The stage after `n` ticks.
pub open spec fn stage_after(s: StageModel, n: nat) -> StageModel
    decreases n,
{
    if n == 0 {
        s
    } else {
        tick_stage(stage_after(s, (n - 1) as nat))
    }
}

/// The number of probes sent in `n` ticks.
pub open spec fn probes_after(s: StageModel, n: nat) -> nat
    decreases n,
{
    if n == 0 {
        0
    } else {
        probes_after(s, (n - 1) as nat) + if stage_after(s, (n - 1) as nat) == (StageModel::Waiting {
            ticks: 0,
        }) {
            1nat
        } else {
            0nat
        }
    }
}

/// `k` probes.
pub open spec fn probe_packets(k: nat) -> Seq<Pkt> {
    Seq::new(k, |j: int| probe())
}

/// What the count found: how many bands the meter keeps, and the input lock
/// and switch position seen while counting.
#[derive(Clone, Copy, Debug, PartialEq, Eq)]
pub struct InitResult {
    pub trimmed_bands: usize,
    pub audio_connection: bool,
    pub switch: Option<Pin>,
}

/// An initializer: the bands the meter has buffers for, the stage of the
/// count, whether the input is locked, and the latest switch position.
pub ghost struct InitModel {
    pub bands: nat,
    pub stage: StageModel,
    pub audio_connection: bool,
    pub switch: Option<Pin>,
}

/// The meaning of a reply to the probe. The probe is a `SetLevel` of level 0
/// whose hop count every tube on the way out and back counts down, so a reply
/// of level 0 with hop count `ttl` has passed `126 - ttl` tubes, twice each.
/// An odd count, or another packet, starts the count over; more tubes than the
/// meter has bands for leave all bands in use.
pub open spec fn probe_reply(s: InitModel, pkt: Pkt) -> Result<InitModel, InitResult> {
    let reset = InitModel { stage: reset_stage(), ..s };
    match pkt {
        Pkt::SetLevel { ttl, brightness } => if brightness@ == 0 {
            let diff = 126 - ttl;
            let num_tubes = diff / 2;
            if diff % 2 == 1 {
                Ok(reset)
            } else if num_tubes > s.bands {
                Err(
                    InitResult {
                        trimmed_bands: s.bands as usize,
                        audio_connection: s.audio_connection,
                        switch: s.switch,
                    },
                )
            } else {
                Err(
                    InitResult {
                        trimmed_bands: num_tubes as usize,
                        audio_connection: s.audio_connection,
                        switch: s.switch,
                    },
                )
            }
        } else {
            Ok(reset)
        },
        _ => Ok(reset),
    }
}

/// How an initializer reacts to an event: its next state, or the result of
/// the count; and the packets it sends.
pub open spec fn init_step(s: InitModel, evt: Event) -> (Result<InitModel, InitResult>, Seq<Pkt>) {
    match evt {
        Event::Timer(TimerEvent::Elapsed(n)) => (
            Ok(InitModel { stage: stage_after(s.stage, n as nat), ..s }),
            probe_packets(probes_after(s.stage, n as nat)),
        ),
        Event::Rx(byte) => match s.stage {
            StageModel::Waiting { ticks } => (Ok(s), Seq::empty()),
            StageModel::Parsing { parser, ticks } => match parser_output(parser, byte) {
                None => (
                    Ok(
                        InitModel {
                            stage: StageModel::Parsing { parser: parser_next(parser, byte), ticks },
                            ..s
                        },
                    ),
                    Seq::empty(),
                ),
                Some(pkt) => (probe_reply(s, pkt), Seq::empty()),
            },
        },
        Event::Audio(AudioEvent::LockLost) => (
            Ok(InitModel { audio_connection: false, ..s }),
            Seq::empty(),
        ),
        Event::Audio(AudioEvent::LockAcquired) => (
            Ok(InitModel { audio_connection: true, ..s }),
            Seq::empty(),
        ),
        Event::Audio(AudioEvent::Levels(_)) => (Ok(s), Seq::empty()),
        Event::Switch(SwitchEvent::Activated(pin)) => (
            Ok(InitModel { switch: Some(pin), ..s }),
            Seq::empty(),
        ),
    }
}

/// The audio board while it counts the tubes on the chain.
#[derive(Clone, Copy)]
pub struct InitializerState {
    bands: usize,
    stage: InitializerStage,
    audio_connection: bool,
    switch: Option<Pin>,
}

impl View for InitializerState {
    type V = InitModel;

    closed spec fn view(&self) -> InitModel {
        InitModel {
            bands: self.bands as nat,
            stage: stage_model(self.stage),
            audio_connection: self.audio_connection,
            switch: self.switch,
        }
    }
}

impl InitializerState {
    /// Handles one event; the probes are appended to `output`. Returns the
    /// result of the count once it is done, `None` while it goes on.
    fn step(&mut self, evt: Event, output: &mut Vec<Pkt>) -> (r: Option<InitResult>)
        ensures
            ({
                let (res, pk) = init_step(old(self)@, evt);
                &&& final(output)@ == old(output)@ + pk
                &&& match res {
                    Ok(m) => r is None && final(self)@ == m,
                    Err(ir) => r == Some(ir),
                }
            }),
            r matches Some(ir) ==> ir.trimmed_bands <= 63,
    {
        match evt {
            Event::Timer(TimerEvent::Elapsed(n)) => {
                let ghost s0 = stage_model(self.stage);
                let ghost start = output@;
                let mut k: u64 = 0;
                while k < n
                    invariant
                        k <= n,
                        stage_model(self.stage) == stage_after(s0, k as nat),
                        output@ == start + probe_packets(probes_after(s0, k as nat)),
                        self.bands == old(self)@.bands,
                        self.audio_connection == old(self)@.audio_connection,
                        self.switch == old(self)@.switch,
                    decreases n - k,
                {
                    let ghost before = output@;
                    match self.stage {
                        InitializerStage::Waiting { ticks: 0 } => {
                            output.push(Pkt::probe_pkt());
                            self.stage = InitializerStage::Parsing {
                                state: ParseState::new(),
                                ticks: 4,
                            };
                            assert(output@ =~= start + probe_packets(
                                probes_after(s0, (k + 1) as nat),
                            ));
                        },
                        InitializerStage::Waiting { ticks } => {
                            self.stage = InitializerStage::Waiting { ticks: ticks - 1 };
                        },
                        InitializerStage::Parsing { state: _, ticks: 0 } => {
                            self.stage = InitializerStage::Waiting { ticks: 4 };
                        },
                        InitializerStage::Parsing { state, ticks } => {
                            self.stage = InitializerStage::Parsing { state, ticks: ticks - 1 };
                        },
                    }
                    k = k + 1;
                }
                None
            },
            Event::Rx(byte) => {
                assert(output@ =~= old(output)@ + Seq::<Pkt>::empty());
                match self.stage {
                    InitializerStage::Waiting { ticks: _ } => None,
                    InitializerStage::Parsing { state, ticks } => {
                        let mut state = state;
                        match state.step_(byte) {
                            None => {
                                self.stage = InitializerStage::Parsing { state, ticks };
                                None
                            },
                            Some(pkt) => {
                                let reset = InitializerStage::Waiting { ticks: 4 };
                                match pkt {
                                    Pkt::SetLevel { ttl, brightness } => {
                                        if brightness.value() == 0 {
                                            let diff = (Pkt::PROBE_TTL - ttl) as usize;
                                            let num_tubes = diff / 2;
                                            assert((diff & 1) == diff % 2) by (bit_vector);
                                            if (diff & 1) == 1 {
                                                self.stage = reset;
                                                None
                                            } else if num_tubes > self.bands {
                                                Some(
                                                    InitResult {
                                                        trimmed_bands: self.bands,
                                                        audio_connection: self.audio_connection,
                                                        switch: self.switch,
                                                    },
                                                )
                                            } else {
                                                Some(
                                                    InitResult {
                                                        trimmed_bands: num_tubes,
                                                        audio_connection: self.audio_connection,
                                                        switch: self.switch,
                                                    },
                                                )
                                            }
                                        } else {
                                            self.stage = reset;
                                            None
                                        }
                                    },
                                    _ => {
                                        self.stage = reset;
                                        None
                                    },
                                }
                            },
                        }
                    },
                }
            },
            Event::Audio(spdif_evt) => {
                assert(output@ =~= old(output)@ + Seq::<Pkt>::empty());
                match spdif_evt {
                    AudioEvent::LockLost => {
                        self.audio_connection = false;
                    },
                    AudioEvent::LockAcquired => {
                        self.audio_connection = true;
                    },
                    AudioEvent::Levels(_) => {},
                }
                None
            },
            Event::Switch(SwitchEvent::Activated(pin)) => {
                assert(output@ =~= old(output)@ + Seq::<Pkt>::empty());
                self.switch = Some(pin);
                None
            },
        }
    }
}

/// While no reply comes, the counting board sends one probe every 10 ticks:
/// the first on the fifth tick after the count starts over, and after 10
/// ticks it is back where it started.
pub proof fn lemma_probe_period()
    ensures
        probes_after(reset_stage(), 4) == 0,
        probes_after(reset_stage(), 5) == 1,
        probes_after(reset_stage(), 10) == 1,
        stage_after(reset_stage(), 10) == reset_stage(),
{
    reveal_with_fuel(stage_after, 11);
    reveal_with_fuel(probes_after, 11);
}

/// A reply of level 0 to the probe, whose hop count went down by 4 on each of
/// `2 * boards` passes through a four-tube board, counts `4 * boards` tubes,
/// or all bands where the meter has fewer.
pub proof fn lemma_probe_reply_counts_tubes(s: InitModel, boards: nat)
    requires
        8 * boards <= 126,
    ensures
        probe_reply(s, Pkt::SetLevel { ttl: (126 - 8 * boards) as i8, brightness: spec_brightness(0) })
            == Err::<InitModel, InitResult>(
            InitResult {
                trimmed_bands: if 4 * boards <= s.bands {
                    (4 * boards) as usize
                } else {
                    s.bands as usize
                },
                audio_connection: s.audio_connection,
                switch: s.switch,
            },
        ),
{
    crate::protocol::lemma_spec_brightness_view(0);
}

/// The probe after `n` passes through four-tube boards, each passing it on.
pub open spec fn probe_after_passes(n: nat) -> Pkt
    decreases n,
{
    if n == 0 {
        probe()
    } else {
        crate::protocol::passed_on(probe_after_passes((n - 1) as nat), 4)
    }
}

proof fn lemma_probe_after_passes(n: nat)
    requires
        4 * n <= 126,
    ensures
        probe_after_passes(n) == (Pkt::SetLevel { ttl: (126 - 4 * n) as i8, brightness: spec_brightness(0) }),
    decreases n,
{
    if n > 0 {
        lemma_probe_after_passes((n - 1) as nat);
    }
}

/// A probe sent out and back through a chain of `boards` four-tube boards
/// stays a valid packet addressed past each board it reaches (so each board
/// passes it on, as `lemma_board_passes_packet` says), and the reply counts
/// `4 * boards` tubes, or all bands where the meter has fewer.
pub proof fn lemma_chain_counts_tubes(s: InitModel, boards: nat)
    requires
        8 * boards <= 126,
    ensures
        forall|n: nat|
            n < 2 * boards ==> {
                &&& (#[trigger] probe_after_passes(n)).valid()
                &&& probe_after_passes(n) matches Pkt::SetLevel { ttl, .. } && ttl >= 4
            },
        probe_reply(s, probe_after_passes(2 * boards)) == Err::<InitModel, InitResult>(
            InitResult {
                trimmed_bands: if 4 * boards <= s.bands {
                    (4 * boards) as usize
                } else {
                    s.bands as usize
                },
                audio_connection: s.audio_connection,
                switch: s.switch,
            },
        ),
{
    crate::protocol::lemma_spec_brightness_view(0);
    assert forall|n: nat| n < 2 * boards implies {
        &&& (#[trigger] probe_after_passes(n)).valid()
        &&& probe_after_passes(n) matches Pkt::SetLevel { ttl, .. } && ttl >= 4
    } by {
        lemma_probe_after_passes(n);
    }
    lemma_probe_after_passes(2 * boards);
    lemma_probe_reply_counts_tubes(s, boards);
}

/// Turning the switch starts a countdown of 2 ticks; a timer event of 3 ticks
/// or more then settles the board in the selected mode.
pub proof fn lemma_switch_settles(a: AudioState, m: Transition<DeviceMode>, pin: Pin, n: u64)
    requires
        n >= 3,
    ensures
        ({
            let (a1, m1, pk1, c1) = connected_step(a, m, Event::Switch(SwitchEvent::Activated(pin)));
            let (a2, m2, pk2, c2) = connected_step(a1, m1, Event::Timer(TimerEvent::Elapsed(n)));
            m2 == Transition::In(switch_target(pin).0)
        }),
{
}

/// The switch selects a mode and, for a running meter, the parameter set of
/// that mode: A turns the tubes off and D calibrates, neither touching the
/// meter; B selects narrow tubes and retunes a running meter with the narrow
/// set; C selects wide tubes and retunes it with the normal (wide) set. A
/// stopped meter is left alone. Either way the retune asks for the same set
/// that a new lock in the selected mode would get, no packet is sent, and the
/// mode counts down 2 ticks first.
pub proof fn lemma_switch_selects_params(a: AudioState, m: Transition<DeviceMode>, pin: Pin)
    ensures
        ({
            let (a1, m1, pk, c) = connected_step(a, m, Event::Switch(SwitchEvent::Activated(pin)));
            &&& a1 == a
            &&& pk == Seq::<Pkt>::empty()
            &&& pin == Pin::A ==> m1 == Transition::TransitioningTo {
                state: DeviceMode::TubesOff,
                ticks: 2,
            } && c is None
            &&& pin == Pin::B ==> m1 == Transition::TransitioningTo {
                state: DeviceMode::TubesOn(TubeMode::Narrow),
                ticks: 2,
            } && c == if a is Running {
                Some(AudioCommand::Retune(ParamsKind::Narrow))
            } else {
                None
            }
            &&& pin == Pin::C ==> m1 == Transition::TransitioningTo {
                state: DeviceMode::TubesOn(TubeMode::Wide),
                ticks: 2,
            } && c == if a is Running {
                Some(AudioCommand::Retune(ParamsKind::Wide))
            } else {
                None
            }
            &&& pin == Pin::D ==> m1 == Transition::TransitioningTo {
                state: DeviceMode::Calibrating,
                ticks: 2,
            } && c is None
            &&& (a is Running && m1 matches Transition::TransitioningTo {
                state: DeviceMode::TubesOn(_),
                ..
            }) ==> c == Some(AudioCommand::Retune(params_for(m1)))
            &&& c matches Some(AudioCommand::Retune(k)) ==> k == params_for(m1)
        }),
{
}

/// Meter levels reach the tubes only while the tubes are on: in any mode
/// other than settled with the tubes on, an audio event sends no packet.
/// With the tubes on and the meter running, a reading sends one `SetLevel`
/// per band, the farthest tube first: packet `j` of `n` carries hop count
/// `n - 1 - j` and the level of band `n - 1 - j`.
pub proof fn lemma_levels_only_when_tubes_on(a: AudioState, m: Transition<DeviceMode>, e: AudioEvent)
    ensures
        ({
            let (a1, m1, pk, c) = connected_step(a, m, Event::Audio(e));
            &&& m1 == m
            &&& !(m matches Transition::In(DeviceMode::TubesOn(_))) ==> pk == Seq::<Pkt>::empty()
            &&& (m matches Transition::In(DeviceMode::TubesOn(_)) && a is Running) ==> (
            e matches AudioEvent::Levels(ls) ==> {
                &&& pk.len() == ls@.len()
                &&& forall|j: int|
                    0 <= j < pk.len() ==> #[trigger] pk[j] == Pkt::SetLevel {
                        ttl: (ls@.len() - 1 - j) as i8,
                        brightness: ls@[ls@.len() - 1 - j],
                    }
            })
            &&& !(a is Running) ==> pk == Seq::<Pkt>::empty()
        }),
{
}

/// While the tubes are counted, turning the switch records that position,
/// whatever was recorded before, and nothing else changes: no packet, no
/// command, the count goes on. So of two turns the later one is kept.
pub proof fn lemma_switch_recorded_while_counting(s: InitModel, p: Pin, q: Pin)
    ensures
        ({
            let (r1, pk1) = init_step(s, Event::Switch(SwitchEvent::Activated(p)));
            &&& r1 matches Ok(s1) && {
                &&& s1.switch == Some(p)
                &&& s1.stage == s.stage
                &&& s1.bands == s.bands
                &&& s1.audio_connection == s.audio_connection
                &&& init_step(s1, Event::Switch(SwitchEvent::Activated(q))).0 matches Ok(s2)
                    && s2.switch == Some(q) && s2.stage == s.stage
            }
            &&& pk1 == Seq::<Pkt>::empty()
        }),
        ({
            let (d1, pk, cs) = device_step(
                DeviceModel::Initializing(s),
                Event::Switch(SwitchEvent::Activated(p)),
            );
            &&& d1 matches DeviceModel::Initializing(s1) && s1.switch == Some(p)
            &&& pk == Seq::<Pkt>::empty()
            &&& cs == Seq::<AudioCommand>::empty()
        }),
{
}

/// When the count is done, the board cuts the meter down to the counted
/// tubes, then heads for the mode of the recorded switch position (tubes off
/// when none was recorded), and starts the meter if the input was locked:
/// with the narrow set when that position is B, the normal set otherwise.
pub proof fn lemma_count_done_replays(ir: InitResult)
    ensures
        ({
            let (a, m, pk, cs) = connect_step(ir);
            &&& pk == Seq::<Pkt>::empty()
            &&& spec_num_bands(a) == ir.trimmed_bands
            &&& (a is Running) == ir.audio_connection
            &&& cs == seq![AudioCommand::Trim(ir.trimmed_bands)] + if ir.audio_connection {
                seq![
                    AudioCommand::Start(
                        if ir.switch == Some(Pin::B) {
                            ParamsKind::Narrow
                        } else {
                            ParamsKind::Wide
                        },
                    ),
                ]
            } else {
                Seq::<AudioCommand>::empty()
            }
            &&& ir.switch is None ==> m == Transition::In(DeviceMode::TubesOff)
            &&& ir.switch == Some(Pin::A) ==> m == Transition::TransitioningTo {
                state: DeviceMode::TubesOff,
                ticks: 2,
            }
            &&& ir.switch == Some(Pin::B) ==> m == Transition::TransitioningTo {
                state: DeviceMode::TubesOn(TubeMode::Narrow),
                ticks: 2,
            }
            &&& ir.switch == Some(Pin::C) ==> m == Transition::TransitioningTo {
                state: DeviceMode::TubesOn(TubeMode::Wide),
                ticks: 2,
            }
            &&& ir.switch == Some(Pin::D) ==> m == Transition::TransitioningTo {
                state: DeviceMode::Calibrating,
                ticks: 2,
            }
        }),
{
    let (a, m, pk, cs) = connect_step(ir);
    assert(cs =~= seq![AudioCommand::Trim(ir.trimmed_bands)] + if ir.audio_connection {
        seq![
            AudioCommand::Start(
                if ir.switch == Some(Pin::B) {
                    ParamsKind::Narrow
                } else {
                    ParamsKind::Wide
                },
            ),
        ]
    } else {
        Seq::<AudioCommand>::empty()
    });
}

/// Timer ticks on a connected board: while the mode still counts down after
/// them, every tube is set dark; once calibrating, every tube is set fully
/// lit; otherwise nothing is sent. Either way the packets cover all tubes,
/// the farthest first, and the meter is left alone.
pub proof fn lemma_ticks_light_tubes(a: AudioState, m: Transition<DeviceMode>, n: u64)
    ensures
        ({
            let (a1, m1, pk, c) = connected_step(a, m, Event::Timer(TimerEvent::Elapsed(n)));
            let k = spec_num_bands(a);
            &&& a1 == a
            &&& c is None
            &&& m1 == advance(m, n as nat)
            &&& (m1 is TransitioningTo || m1 == Transition::In(DeviceMode::Calibrating)) ==> {
                &&& pk.len() == k
                &&& forall|j: int|
                    0 <= j < k ==> #[trigger] pk[j] == Pkt::SetLevel {
                        ttl: (k - 1 - j) as i8,
                        brightness: spec_brightness(
                            if m1 is TransitioningTo {
                                0u16
                            } else {
                                0x3FFFu16
                            },
                        ),
                    }
            }
            &&& (m1 matches Transition::In(DeviceMode::TubesOn(_)) || m1 == Transition::In(
                DeviceMode::TubesOff,
            )) ==> pk == Seq::<Pkt>::empty()
            &&& m matches Transition::In(s) ==> m1 == m
            &&& m matches Transition::TransitioningTo { state, ticks } ==> (m1 == Transition::In(
                state,
            ) <==> n > ticks)
        }),
{
}

/// The input lock on a connected board: a lock starts the meter, with the
/// narrow set when the tubes are in, or heading for, narrow mode and the
/// normal set otherwise; losing the lock stops a running meter and does
/// nothing to a stopped one. Neither sends a packet or changes the mode, and
/// the meter keeps its number of bands.
pub proof fn lemma_lock_starts_meter(a: AudioState, m: Transition<DeviceMode>)
    ensures
        ({
            let (a1, m1, pk, c) = connected_step(a, m, Event::Audio(AudioEvent::LockAcquired));
            &&& a1 is Running && spec_num_bands(a1) == spec_num_bands(a)
            &&& m1 == m && pk == Seq::<Pkt>::empty()
            &&& c == Some(
                AudioCommand::Start(
                    if m == Transition::In(DeviceMode::TubesOn(TubeMode::Narrow)) || m
                        matches Transition::TransitioningTo {
                        state: DeviceMode::TubesOn(TubeMode::Narrow),
                        ..
                    } {
                        ParamsKind::Narrow
                    } else {
                        ParamsKind::Wide
                    },
                ),
            )
        }),
        ({
            let (a1, m1, pk, c) = connected_step(a, m, Event::Audio(AudioEvent::LockLost));
            &&& !(a1 is Running) && spec_num_bands(a1) == spec_num_bands(a)
            &&& m1 == m && pk == Seq::<Pkt>::empty()
            &&& c == if a is Running {
                Some(AudioCommand::Disconnect)
            } else {
                None
            }
        }),
{
}

/// An audio board: counting the tubes, or connected.
pub ghost enum DeviceModel {
    Connected(AudioState, Transition<DeviceMode>),
    Initializing(InitModel),
}

/// A command as a sequence of at most one.
pub open spec fn command_seq(c: Option<AudioCommand>) -> Seq<AudioCommand> {
    match c {
        Some(c) => seq![c],
        None => Seq::empty(),
    }
}

/// What the board does once the count is done: the meter is cut down to the
/// counted tubes and the board connects with the tubes off; then the switch
/// position and the input lock seen while counting are replayed, in that
/// order.
pub open spec fn connect_step(ir: InitResult) -> (
    AudioState,
    Transition<DeviceMode>,
    Seq<Pkt>,
    Seq<AudioCommand>,
) {
    let a0 = AudioState::Disconnected { bands: ir.trimmed_bands };
    let m0 = Transition::In(DeviceMode::TubesOff);
    let (a1, m1, pk1, c1) = match ir.switch {
        Some(pin) => connected_step(a0, m0, Event::Switch(SwitchEvent::Activated(pin))),
        None => (a0, m0, Seq::empty(), None),
    };
    let (a2, m2, pk2, c2) = if ir.audio_connection {
        connected_step(a1, m1, Event::Audio(AudioEvent::LockAcquired))
    } else {
        (a1, m1, Seq::empty(), None)
    };
    (a2, m2, pk1 + pk2, seq![AudioCommand::Trim(ir.trimmed_bands)] + command_seq(c1) + command_seq(c2))
}

/// How an audio board reacts to an event: its next state, the packets it
/// sends, and the commands for the meter.
pub open spec fn device_step(d: DeviceModel, evt: Event) -> (DeviceModel, Seq<Pkt>, Seq<AudioCommand>) {
    match d {
        DeviceModel::Connected(a, m) => {
            let (a2, m2, pk, c) = connected_step(a, m, evt);
            (DeviceModel::Connected(a2, m2), pk, command_seq(c))
        },
        DeviceModel::Initializing(s) => {
            let (res, pk) = init_step(s, evt);
            match res {
                Ok(s2) => (DeviceModel::Initializing(s2), pk, Seq::empty()),
                Err(ir) => {
                    let (a2, m2, pk2, cs) = connect_step(ir);
                    (DeviceModel::Connected(a2, m2), pk + pk2, cs)
                },
            }
        },
    }
}

/// The audio board.
#[derive(Clone, Copy)]
pub enum DeviceState {
    Connected(ConnectedState),
    Initializing(InitializerState),
}

impl View for DeviceState {
    type V = DeviceModel;

    closed spec fn view(&self) -> DeviceModel {
        match self {
            DeviceState::Connected(c) => DeviceModel::Connected(c@.0, c@.1),
            DeviceState::Initializing(s) => DeviceModel::Initializing(s@),
        }
    }
}

impl DeviceState {
    /// A board that is about to count the tubes, with buffers for `bands`
    /// bands of the meter.
    pub fn new(bands: usize) -> (r: DeviceState)
        ensures
            r@ == DeviceModel::Initializing(
                InitModel {
                    bands: bands as nat,
                    stage: StageModel::Waiting { ticks: 4 },
                    audio_connection: false,
                    switch: None,
                },
            ),
    {
        DeviceState::Initializing(
            InitializerState {
                stage: InitializerStage::Waiting { ticks: 4 },
                bands,
                audio_connection: false,
                switch: None,
            },
        )
    }

    /// Handles one event; the packets for the tubes are appended to `output`,
    /// and what the meter must do is returned, in order.
    pub fn step(&mut self, evt: Event, output: &mut Vec<Pkt>) -> (r: Vec<AudioCommand>)
        requires
            event_ok(evt),
        ensures
            ({
                let (d2, pk, cs) = device_step(old(self)@, evt);
                &&& final(self)@ == d2
                &&& final(output)@ == old(output)@ + pk
                &&& r@ == cs
            }),
    {
        let mut commands: Vec<AudioCommand> = Vec::new();
        match *self {
            DeviceState::Connected(state) => {
                let mut state = state;
                if let Some(c) = state.step(evt, output) {
                    commands.push(c);
                }
                *self = DeviceState::Connected(state);
            },
            DeviceState::Initializing(state) => {
                let mut state = state;
                match state.step(evt, output) {
                    None => {
                        *self = DeviceState::Initializing(state);
                    },
                    Some(init_res) => {
                        let mut conn = ConnectedState::new(
                            AudioState::Disconnected { bands: init_res.trimmed_bands },
                        );
                        commands.push(AudioCommand::Trim(init_res.trimmed_bands));
                        if let Some(pin) = init_res.switch {
                            if let Some(c) = conn.step(
                                Event::Switch(SwitchEvent::Activated(pin)),
                                output,
                            ) {
                                commands.push(c);
                            }
                        }
                        if init_res.audio_connection {
                            if let Some(c) = conn.step(Event::Audio(AudioEvent::LockAcquired), output) {
                                commands.push(c);
                            }
                        }
                        *self = DeviceState::Connected(conn);
                    },
                }
            },
        }
        commands
    }
}

} // verus!
