use vstd::prelude::*;

use crate::protocol::{
    fresh_parser,
    parser_event,
    parser_next,
    queued_frame,
    spec_map_to,
    Brightness,
    Event as PktEvent,
    ParseState,
};
use crate::shared::{Consumer, RingBuf};

verus! {

/// The state of the high-voltage supply of the tubes.
#[derive(PartialEq, Eq)]
pub enum PowerState {
    Energized,
    Deenergized,
    EnergizingFor { ticks: usize },
}

/// What a tick of the high-voltage supply reports.
#[derive(PartialEq, Eq)]
pub enum HVTransition {
    NoChange,
    JustBecameEnergized,
}

/// A switchable output, such as the enable pin of the high-voltage supply.
pub trait DigitalOutput {
    fn set(&mut self, on: bool);
}

/// How many ticks the secondary cathodes are given to fire before the
/// primary cathodes are driven.
pub const ENERGIZE_TICKS: usize = 5;

/// The supply after it is switched on: a supply that was off starts its
/// warm-up count; otherwise nothing changes.
pub open spec fn power_after_energize(s: PowerState) -> PowerState {
    if s is Deenergized {
        PowerState::EnergizingFor { ticks: 0 }
    } else {
        s
    }
}

/// The supply after a tick: a warm-up count below `ENERGIZE_TICKS` goes up by
/// one, one at `ENERGIZE_TICKS` or above ends in `Energized`.
pub open spec fn power_after_tick(s: PowerState) -> PowerState {
    match s {
        PowerState::EnergizingFor { ticks } => if ticks < ENERGIZE_TICKS {
            PowerState::EnergizingFor { ticks: (ticks + 1) as usize }
        } else {
            PowerState::Energized
        },
        _ => s,
    }
}

/// What a tick reports: `JustBecameEnergized` exactly when it ends a warm-up.
pub open spec fn transition_of_tick(s: PowerState) -> HVTransition {
    match s {
        PowerState::EnergizingFor { ticks } => if ticks < ENERGIZE_TICKS {
            HVTransition::NoChange
        } else {
            HVTransition::JustBecameEnergized
        },
        _ => HVTransition::NoChange,
    }
}

/// The high-voltage supply, switched through its enable pin.
pub struct HV<Pin> {
    state: PowerState,
    pin: Pin,
    pin_log: Ghost<Seq<bool>>,
}

impl<Pin> View for HV<Pin> {
    /// The supply's state, and every value written to the enable pin, oldest
    /// first.
    type V = (PowerState, Seq<bool>);

    closed spec fn view(&self) -> (PowerState, Seq<bool>) {
        (self.state, self.pin_log@)
    }
}

impl<Pin> HV<Pin> where Pin: DigitalOutput {
    /// Takes over the enable pin and switches the supply off.
    pub fn init(pin: Pin) -> (r: Self)
        ensures
            r@ == (PowerState::Deenergized, seq![false]),
    {
        let mut pin = pin;
        pin.set(false);
        let pin_log: Ghost<Seq<bool>> = Ghost(Seq::empty().push(false));
        HV { state: PowerState::Deenergized, pin, pin_log }
    }

    /// Switches the supply on, unless it is on or warming up already.
    pub fn energize(&mut self)
        ensures
            final(self)@.0 == power_after_energize(old(self)@.0),
            final(self)@.1 == if old(self)@.0 is Deenergized {
                old(self)@.1.push(true)
            } else {
                old(self)@.1
            },
    {
        if let PowerState::Deenergized = self.state {
            self.pin.set(true);
            self.pin_log = Ghost(self.pin_log@.push(true));
            self.state = PowerState::EnergizingFor { ticks: 0 };
        }
    }

    /// Switches the supply off, unless it is off already.
    pub fn deenergize(&mut self)
        ensures
            final(self)@.0 == PowerState::Deenergized,
            final(self)@.1 == if old(self)@.0 is Deenergized {
                old(self)@.1
            } else {
                old(self)@.1.push(false)
            },
    {
        if let PowerState::Deenergized = self.state {
        } else {
            self.pin.set(false);
            self.pin_log = Ghost(self.pin_log@.push(false));
            self.state = PowerState::Deenergized;
        }
    }

    /// Advances a warm-up by one tick.
    pub fn tick(&mut self) -> (r: HVTransition)
        ensures
            final(self)@.0 == power_after_tick(old(self)@.0),
            final(self)@.1 == old(self)@.1,
            r == transition_of_tick(old(self)@.0),
    {
        match self.state {
            PowerState::EnergizingFor { ticks } => {
                if ticks < ENERGIZE_TICKS {
                    self.state = PowerState::EnergizingFor { ticks: ticks + 1 };
                    HVTransition::NoChange
                } else {
                    self.state = PowerState::Energized;
                    HVTransition::JustBecameEnergized
                }
            },
            _ => HVTransition::NoChange,
        }
    }
}

/// The supply, switched on from off, reports `JustBecameEnergized` on the
/// tick after `ENERGIZE_TICKS` ticks of warm-up and nothing before.
pub proof fn lemma_warm_up()
    ensures
        ({
            let s0 = power_after_energize(PowerState::Deenergized);
            let s1 = power_after_tick(s0);
            let s2 = power_after_tick(s1);
            let s3 = power_after_tick(s2);
            let s4 = power_after_tick(s3);
            let s5 = power_after_tick(s4);
            &&& transition_of_tick(s0) == HVTransition::NoChange
            &&& transition_of_tick(s1) == HVTransition::NoChange
            &&& transition_of_tick(s2) == HVTransition::NoChange
            &&& transition_of_tick(s3) == HVTransition::NoChange
            &&& transition_of_tick(s4) == HVTransition::NoChange
            &&& transition_of_tick(s5) == HVTransition::JustBecameEnergized
            &&& power_after_tick(s5) == PowerState::Energized
        }),
{
}

/// A call made on the high-voltage supply.
pub ghost enum HVOp {
    Energize,
    Deenergize,
    Tick,
}

/// The supply's state after the calls `ops`, starting from `s`.
pub open spec fn power_after_ops(s: PowerState, ops: Seq<HVOp>) -> PowerState
    decreases ops.len(),
{
    if ops.len() == 0 {
        s
    } else {
        let p = power_after_ops(s, ops.drop_last());
        match ops.last() {
            HVOp::Energize => power_after_energize(p),
            HVOp::Deenergize => PowerState::Deenergized,
            HVOp::Tick => power_after_tick(p),
        }
    }
}

/// The ticks since the supply was last switched on from off, counting over
/// the calls `ops` made since it was switched off: `None` when it has not
/// been switched on since, or was switched off again. A switch-on while it is
/// on changes nothing.
pub open spec fn ticks_since_switch_on(ops: Seq<HVOp>) -> Option<nat>
    decreases ops.len(),
{
    if ops.len() == 0 {
        None
    } else {
        let prev = ticks_since_switch_on(ops.drop_last());
        match ops.last() {
            HVOp::Deenergize => None,
            HVOp::Energize => match prev {
                None => Some(0),
                Some(n) => Some(n),
            },
            HVOp::Tick => match prev {
                None => None,
                Some(n) => Some(n + 1),
            },
        }
    }
}

/// Over any history of calls on a supply that starts off, a tick reports
/// `JustBecameEnergized` exactly when it is the sixth tick since the supply
/// was switched on from off with no switch-off since; the supply is off,
/// warming up, or on as that count says.
pub proof fn lemma_hv_history(ops: Seq<HVOp>)
    ensures
        ({
            let s = power_after_ops(PowerState::Deenergized, ops);
            &&& (transition_of_tick(s) == HVTransition::JustBecameEnergized) == (
            ticks_since_switch_on(ops) == Some(5nat))
            &&& match ticks_since_switch_on(ops) {
                None => s == PowerState::Deenergized,
                Some(n) => if n <= ENERGIZE_TICKS {
                    s == PowerState::EnergizingFor { ticks: n as usize }
                } else {
                    s == PowerState::Energized
                },
            }
        }),
    decreases ops.len(),
{
    if ops.len() > 0 {
        lemma_hv_history(ops.drop_last());
    }
}

/// One of the four PWM outputs, one per tube.
#[derive(Clone, Copy, Debug)]
pub enum PWMPin {
    A,
    B,
    C,
    D,
}

/// Four PWM outputs that share one maximum duty.
pub trait PWMx4 {
    fn get_max_duty(&self) -> u32;

    fn set_duty(&mut self, pin: PWMPin, duty: u32);
}

/// The position of an output among the four.
pub open spec fn pin_index(p: PWMPin) -> int {
    match p {
        PWMPin::A => 0,
        PWMPin::B => 1,
        PWMPin::C => 2,
        PWMPin::D => 3,
    }
}

fn index_of(p: PWMPin) -> (r: usize)
    ensures
        r == pin_index(p),
{
    match p {
        PWMPin::A => 0,
        PWMPin::B => 1,
        PWMPin::C => 2,
        PWMPin::D => 3,
    }
}

/// The four outputs set to 0, in order.
pub open spec fn zero_writes() -> Seq<(PWMPin, u32)> {
    seq![(PWMPin::A, 0u32), (PWMPin::B, 0u32), (PWMPin::C, 0u32), (PWMPin::D, 0u32)]
}

/// The four outputs set to the duties `d`, in order.
pub open spec fn restore_writes(d: Seq<u32>) -> Seq<(PWMPin, u32)> {
    seq![(PWMPin::A, d[0]), (PWMPin::B, d[1]), (PWMPin::C, d[2]), (PWMPin::D, d[3])]
}

/// What a PWM manager is: the supply's state and the values written to its
/// enable pin; the duty each tube should show; the ticks that all duties have
/// been 0 and the ticks since the last update; every duty written to the PWM
/// outputs, and every maximum duty they reported, oldest first.
pub ghost struct PwmModel {
    pub power: PowerState,
    pub pin_log: Seq<bool>,
    pub duties: Seq<u32>,
    pub zero_ticks: nat,
    pub update_ticks: nat,
    pub duty_log: Seq<(PWMPin, u32)>,
    pub max_log: Seq<u32>,
}

/// Ticks of silence (all duties 0) before the supply is switched off.
pub const ZERO_TICKS: usize = 10 * 20;

/// Ticks without any update before the supply is switched off.
pub const DISCONNECT_TICKS: usize = 3 * 20;

/// The manager after tube `tube` is set to the level `b`, the outputs
/// reporting the maximum duty `m`: the duty is the level mapped onto
/// `[0, m]`; a nonzero duty switches the supply on and restarts the silence
/// count; the update count restarts; the duty is written out only while the
/// supply is fully on.
pub open spec fn after_set_pwm(o: PwmModel, tube: PWMPin, b: u16, m: u32) -> PwmModel {
    let d = spec_map_to(b, 0, m) as u32;
    let power = if d > 0 {
        power_after_energize(o.power)
    } else {
        o.power
    };
    PwmModel {
        power,
        pin_log: if d > 0 && o.power is Deenergized {
            o.pin_log.push(true)
        } else {
            o.pin_log
        },
        duties: o.duties.update(pin_index(tube), d),
        zero_ticks: if d > 0 {
            0
        } else {
            o.zero_ticks
        },
        update_ticks: 0,
        duty_log: if power is Energized {
            o.duty_log.push((tube, d))
        } else {
            o.duty_log
        },
        max_log: o.max_log.push(m),
    }
}

/// The manager after a tick: the silence count goes up while all duties are
/// 0, the update count goes up; when either reaches its limit the supply is
/// switched off and the outputs are set to 0; then the supply ticks, and the
/// duties are written out when it has just come fully on.
pub open spec fn after_tick(o: PwmModel) -> PwmModel {
    let zeroed = o.duties[0] == 0 && o.duties[1] == 0 && o.duties[2] == 0 && o.duties[3] == 0;
    let z = if zeroed {
        o.zero_ticks + 1
    } else {
        o.zero_ticks
    };
    let u = o.update_ticks + 1;
    let off = z >= ZERO_TICKS || u >= DISCONNECT_TICKS;
    let p1 = if off {
        PowerState::Deenergized
    } else {
        o.power
    };
    let w1 = if off {
        o.duty_log + zero_writes()
    } else {
        o.duty_log
    };
    PwmModel {
        power: power_after_tick(p1),
        pin_log: if off && !(o.power is Deenergized) {
            o.pin_log.push(false)
        } else {
            o.pin_log
        },
        duties: o.duties,
        zero_ticks: z,
        update_ticks: u,
        duty_log: if transition_of_tick(p1) is JustBecameEnergized {
            w1 + restore_writes(o.duties)
        } else {
            w1
        },
        max_log: o.max_log,
    }
}

/// Drives the tubes of one board: holds the duty of each tube, applies it
/// while the supply is on, and switches the supply off after silence or
/// after updates stop.
pub struct PwmManager<PowerPin, PWM> {
    hv: HV<PowerPin>,
    duties: [u32; 4],
    zero_ticks: usize,
    update_ticks: usize,
    pwm: PWM,
    duty_log: Ghost<Seq<(PWMPin, u32)>>,
    max_log: Ghost<Seq<u32>>,
}

impl<PowerPin, PWM> View for PwmManager<PowerPin, PWM> {
    type V = PwmModel;

    closed spec fn view(&self) -> PwmModel {
        PwmModel {
            power: self.hv@.0,
            pin_log: self.hv@.1,
            duties: self.duties@,
            zero_ticks: self.zero_ticks as nat,
            update_ticks: self.update_ticks as nat,
            duty_log: self.duty_log@,
            max_log: self.max_log@,
        }
    }
}

impl<PowerPin, PWM> PwmManager<PowerPin, PWM> where PowerPin: DigitalOutput, PWM: PWMx4 {
    /// Neither count is at the largest `usize`, so a tick can add to both.
    pub open spec fn can_tick(self) -> bool {
        self@.zero_ticks < usize::MAX && self@.update_ticks < usize::MAX
    }

    fn write_duty(&mut self, tube: PWMPin, duty: u32)
        ensures
            final(self)@ == (PwmModel { duty_log: old(self)@.duty_log.push((tube, duty)), ..old(self)@ }),
    {
        self.pwm.set_duty(tube, duty);
        self.duty_log = Ghost(self.duty_log@.push((tube, duty)));
    }

    /// Takes over the supply and the outputs: all outputs are set to 0, then
    /// the supply is switched on.
    pub fn new(hv: HV<PowerPin>, pwm: PWM) -> (r: Self)
        ensures
            r@.power == power_after_energize(hv@.0),
            r@.pin_log == if hv@.0 is Deenergized {
                hv@.1.push(true)
            } else {
                hv@.1
            },
            r@.duties == seq![0u32, 0u32, 0u32, 0u32],
            r@.zero_ticks == 0,
            r@.update_ticks == 0,
            r@.duty_log == zero_writes(),
            r@.max_log == Seq::<u32>::empty(),
    {
        let mut pwm = pwm;
        let mut hv = hv;
        pwm.set_duty(PWMPin::A, 0);
        pwm.set_duty(PWMPin::B, 0);
        pwm.set_duty(PWMPin::C, 0);
        pwm.set_duty(PWMPin::D, 0);
        hv.energize();
        let duty_log: Ghost<Seq<(PWMPin, u32)>> = Ghost(zero_writes());
        let max_log: Ghost<Seq<u32>> = Ghost(Seq::empty());
        let r = PwmManager { hv, duties: [0u32; 4], zero_ticks: 0, update_ticks: 0, pwm, duty_log, max_log };
        assert(r@.duties =~= seq![0u32, 0u32, 0u32, 0u32]);
        r
    }

    /// Sets tube `tube` to the level `brightness`.
    pub fn set_pwm(&mut self, tube: PWMPin, brightness: Brightness)
        ensures
            final(self)@ == after_set_pwm(old(self)@, tube, brightness@, final(self)@.max_log.last()),
    {
        self.update_ticks = 0;
        let max = self.pwm.get_max_duty();
        self.max_log = Ghost(self.max_log@.push(max));
        let duty = brightness.map_to(0, max);
        if duty > 0 {
            self.hv.energize();
            self.zero_ticks = 0;
        }
        let i = index_of(tube);
        self.duties[i] = duty;
        if let PowerState::Energized = self.hv.state {
            self.write_duty(tube, duty);
        }
        assert(self@ =~= after_set_pwm(old(self)@, tube, brightness@, max));
    }

    /// Advances the silence and update counts and the supply by one tick.
    pub fn tick(&mut self)
        requires
            old(self).can_tick(),
        ensures
            final(self)@ == after_tick(old(self)@),
    {
        let zeroed = self.duties[0] == 0 && self.duties[1] == 0 && self.duties[2] == 0
            && self.duties[3] == 0;
        if zeroed {
            self.zero_ticks = self.zero_ticks + 1;
        }
        self.update_ticks = self.update_ticks + 1;
        let ghost log0 = self.duty_log@;
        if self.zero_ticks >= ZERO_TICKS || self.update_ticks >= DISCONNECT_TICKS {
            self.hv.deenergize();
            self.write_duty(PWMPin::A, 0);
            self.write_duty(PWMPin::B, 0);
            self.write_duty(PWMPin::C, 0);
            self.write_duty(PWMPin::D, 0);
            assert(self.duty_log@ =~= log0 + zero_writes());
        }
        let ghost log1 = self.duty_log@;
        match self.hv.tick() {
            HVTransition::NoChange => {},
            HVTransition::JustBecameEnergized => {
                let d = self.duties;
                self.write_duty(PWMPin::A, d[0]);
                self.write_duty(PWMPin::B, d[1]);
                self.write_duty(PWMPin::C, d[2]);
                self.write_duty(PWMPin::D, d[3]);
                assert(self.duty_log@ =~= log1 + restore_writes(d@));
            },
        }
        assert(self@ =~= after_tick(old(self)@));
    }
}

/// A tick that brings the silence count or the update count to its limit
/// leaves the supply off, with all four outputs written 0.
pub proof fn lemma_timeout_switches_off(o: PwmModel)
    requires
        o.duties.len() == 4,
        ({
            let zeroed = o.duties[0] == 0 && o.duties[1] == 0 && o.duties[2] == 0 && o.duties[3]
                == 0;
            (zeroed && o.zero_ticks + 1 >= ZERO_TICKS) || o.update_ticks + 1 >= DISCONNECT_TICKS
        }),
    ensures
        after_tick(o).power == PowerState::Deenergized,
        after_tick(o).duty_log == o.duty_log + zero_writes(),
{
}

/// A call made on a PWM manager: setting a tube to a level, the outputs
/// reporting the maximum duty `max`; or a tick.
pub ghost enum PwmOp {
    SetLevel { tube: PWMPin, level: u16, max: u32 },
    Tick,
}

/// The manager after the call `op`.
pub open spec fn step_pwm(o: PwmModel, op: PwmOp) -> PwmModel {
    match op {
        PwmOp::SetLevel { tube, level, max } => after_set_pwm(o, tube, level, max),
        PwmOp::Tick => after_tick(o),
    }
}

/// The manager after the calls `ops`.
pub open spec fn run_pwm(o: PwmModel, ops: Seq<PwmOp>) -> PwmModel
    decreases ops.len(),
{
    if ops.len() == 0 {
        o
    } else {
        step_pwm(run_pwm(o, ops.drop_last()), ops.last())
    }
}

/// The number of ticks among the calls `ops`.
pub open spec fn tick_count(ops: Seq<PwmOp>) -> nat
    decreases ops.len(),
{
    if ops.len() == 0 {
        0
    } else {
        tick_count(ops.drop_last()) + if ops.last() is Tick {
            1nat
        } else {
            0nat
        }
    }
}

/// `n` ticks.
pub open spec fn ticks_only(n: nat) -> Seq<PwmOp> {
    Seq::new(n, |i: int| PwmOp::Tick)
}

/// Whether the next tick reaches the silence or the update limit.
pub open spec fn times_out(o: PwmModel) -> bool {
    let zeroed = o.duties[0] == 0 && o.duties[1] == 0 && o.duties[2] == 0 && o.duties[3] == 0;
    let z = if zeroed {
        o.zero_ticks + 1
    } else {
        o.zero_ticks
    };
    z >= ZERO_TICKS || o.update_ticks + 1 >= DISCONNECT_TICKS
}

/// No tick among the calls `ops` reaches a limit.
pub open spec fn no_timeouts(o: PwmModel, ops: Seq<PwmOp>) -> bool
    decreases ops.len(),
{
    if ops.len() == 0 {
        true
    } else {
        no_timeouts(o, ops.drop_last()) && (ops.last() is Tick ==> !times_out(
            run_pwm(o, ops.drop_last()),
        ))
    }
}

proof fn lemma_ticks_count_updates(o: PwmModel, n: nat)
    requires
        o.duties.len() == 4,
    ensures
        run_pwm(o, ticks_only(n)).update_ticks == o.update_ticks + n,
        run_pwm(o, ticks_only(n)).duties == o.duties,
    decreases n,
{
    if n > 0 {
        assert(ticks_only(n).drop_last() =~= ticks_only((n - 1) as nat));
        lemma_ticks_count_updates(o, (n - 1) as nat);
    }
}

/// Three seconds without input switch the tubes off: after `set_pwm` (or
/// `new`), which restarts the update count, 59 ticks and then one more turn
/// the supply off and set all four outputs to 0 on that sixtieth tick.
pub proof fn lemma_no_input_timeout(o: PwmModel)
    requires
        o.duties.len() == 4,
        o.update_ticks == 0,
    ensures
        ({
            let p = run_pwm(o, ticks_only(59));
            let q = after_tick(p);
            &&& times_out(p)
            &&& q.power == PowerState::Deenergized
            &&& q.duty_log == p.duty_log + zero_writes()
            &&& q.pin_log == if p.power is Deenergized {
                p.pin_log
            } else {
                p.pin_log.push(false)
            }
        }),
{
    lemma_ticks_count_updates(o, 59);
}

proof fn lemma_silence_counts(o: PwmModel, ops: Seq<PwmOp>)
    requires
        o.duties == seq![0u32, 0u32, 0u32, 0u32],
        forall|i: int| 0 <= i < ops.len() ==> (#[trigger] ops[i] matches PwmOp::SetLevel { level, .. } ==> level
            == 0),
    ensures
        run_pwm(o, ops).duties == o.duties,
        run_pwm(o, ops).zero_ticks == o.zero_ticks + tick_count(ops),
    decreases ops.len(),
{
    if ops.len() > 0 {
        let prev = ops.drop_last();
        assert forall|i: int| 0 <= i < prev.len() implies (#[trigger] prev[i] matches PwmOp::SetLevel {
            level,
            ..
        } ==> level == 0) by {
            assert(prev[i] == ops[i]);
        }
        lemma_silence_counts(o, prev);
        assert(ops[ops.len() - 1] == ops.last());
        let p = run_pwm(o, prev);
        assert(p.duties.update(pin_index(PWMPin::A), 0u32) =~= p.duties);
        assert(p.duties.update(pin_index(PWMPin::B), 0u32) =~= p.duties);
        assert(p.duties.update(pin_index(PWMPin::C), 0u32) =~= p.duties);
        assert(p.duties.update(pin_index(PWMPin::D), 0u32) =~= p.duties);
    }
}

/// Ten seconds of silence switch the tubes off: with all four duties at 0,
/// and only level-0 updates since, the tick that brings the silence count to
/// 200 turns the supply off and sets all four outputs to 0.
pub proof fn lemma_silence_timeout(o: PwmModel, ops: Seq<PwmOp>)
    requires
        o.duties == seq![0u32, 0u32, 0u32, 0u32],
        forall|i: int| 0 <= i < ops.len() ==> (#[trigger] ops[i] matches PwmOp::SetLevel { level, .. } ==> level
            == 0),
        o.zero_ticks + tick_count(ops) + 1 == ZERO_TICKS,
    ensures
        ({
            let p = run_pwm(o, ops);
            let q = after_tick(p);
            &&& p.zero_ticks + 1 == ZERO_TICKS
            &&& times_out(p)
            &&& q.power == PowerState::Deenergized
            &&& q.duty_log == p.duty_log + zero_writes()
        }),
{
    lemma_silence_counts(o, ops);
}

/// Setting tube `tube` to a level, the outputs reporting the maximum duty
/// `m`: the tube's duty becomes the level mapped onto `[0, m]` and the other
/// tubes keep theirs; the update count restarts. A duty of 0 leaves the
/// supply and the silence count as they were; a nonzero duty switches an off
/// supply on (writing `true` to its pin) and leaves one that is on or warming
/// up alone. The duty is written to the output only when the supply is then
/// fully on, and never while it warms up.
pub proof fn lemma_set_pwm_effects(o: PwmModel, tube: PWMPin, level: u16, m: u32)
    requires
        o.duties.len() == 4,
        level <= 0x3FFF,
    ensures
        ({
            let p = after_set_pwm(o, tube, level, m);
            let d = spec_map_to(level, 0, m);
            &&& 0 <= d <= m
            &&& p.duties.len() == 4
            &&& p.duties[pin_index(tube)] == d
            &&& forall|i: int| 0 <= i < 4 && i != pin_index(tube) ==> p.duties[i] == o.duties[i]
            &&& p.update_ticks == 0
            &&& p.max_log == o.max_log.push(m)
            &&& d == 0 ==> p.power == o.power && p.zero_ticks == o.zero_ticks && p.pin_log
                == o.pin_log
            &&& (d > 0 && o.power is Deenergized) ==> p.power == (PowerState::EnergizingFor {
                ticks: 0,
            }) && p.pin_log == o.pin_log.push(true)
            &&& (d > 0 && !(o.power is Deenergized)) ==> p.power == o.power && p.pin_log
                == o.pin_log
            &&& p.duty_log == if p.power is Energized {
                o.duty_log.push((tube, d as u32))
            } else {
                o.duty_log
            }
        }),
{
    crate::protocol::lemma_map_to_linear(level, level, 0, m);
}

proof fn lemma_ticks_bound_silence(o: PwmModel, n: nat)
    requires
        o.duties.len() == 4,
    ensures
        run_pwm(o, ticks_only(n)).zero_ticks <= o.zero_ticks + n,
        run_pwm(o, ticks_only(n)).duties.len() == 4,
    decreases n,
{
    if n > 0 {
        assert(ticks_only(n).drop_last() =~= ticks_only((n - 1) as nat));
        lemma_ticks_bound_silence(o, (n - 1) as nat);
    }
}

/// Music restarts the silence count: setting a tube to a level whose duty is
/// not 0 stores that duty, switches the supply on (or keeps it on) and
/// leaves both the silence and the update count at 0; so, of the next
/// `ZERO_TICKS - 1` ticks, none switches the supply off for silence: any of
/// them that reaches a limit reaches the one for missing updates.
pub proof fn lemma_update_restarts_silence(
    o: PwmModel,
    tube: PWMPin,
    level: u16,
    max: u32,
    n: nat,
)
    requires
        o.duties.len() == 4,
        spec_map_to(level, 0, max) as u32 > 0,
        n + 1 < ZERO_TICKS,
    ensures
        ({
            let p = after_set_pwm(o, tube, level, max);
            let q = run_pwm(p, ticks_only(n));
            &&& p.zero_ticks == 0
            &&& p.update_ticks == 0
            &&& p.duties[pin_index(tube)] > 0
            &&& !(p.power is Deenergized)
            &&& q.zero_ticks <= n
            &&& (times_out(q) ==> q.update_ticks + 1 >= DISCONNECT_TICKS)
        }),
{
    let p = after_set_pwm(o, tube, level, max);
    lemma_ticks_bound_silence(p, n);
    lemma_ticks_count_updates(p, n);
}

proof fn lemma_warm_up_holds_back(o: PwmModel, ops: Seq<PwmOp>)
    requires
        o.duties.len() == 4,
        o.power == (PowerState::EnergizingFor { ticks: 0 }),
        tick_count(ops) <= ENERGIZE_TICKS,
        no_timeouts(o, ops),
    ensures
        run_pwm(o, ops).power == (PowerState::EnergizingFor { ticks: tick_count(ops) as usize }),
        run_pwm(o, ops).duty_log == o.duty_log,
        run_pwm(o, ops).pin_log == o.pin_log,
        run_pwm(o, ops).duties.len() == 4,
    decreases ops.len(),
{
    if ops.len() > 0 {
        lemma_warm_up_holds_back(o, ops.drop_last());
    }
}

/// The duties set while the supply warms up are held back and applied
/// together: from a supply just switched on, five ticks (with any updates
/// between them, none reaching a limit) write no duty, and the sixth tick,
/// not reaching a limit either, brings the supply fully on and writes the
/// stored duties of A, B, C and D in that order.
pub proof fn lemma_replay_after_warm_up(o: PwmModel, ops: Seq<PwmOp>)
    requires
        o.duties.len() == 4,
        o.power == (PowerState::EnergizingFor { ticks: 0 }),
        tick_count(ops) == ENERGIZE_TICKS,
        no_timeouts(o, ops),
        !times_out(run_pwm(o, ops)),
    ensures
        ({
            let p = run_pwm(o, ops);
            let q = after_tick(p);
            &&& p.duty_log == o.duty_log
            &&& q.power == PowerState::Energized
            &&& q.duty_log == p.duty_log + restore_writes(p.duties)
        }),
{
    lemma_warm_up_holds_back(o, ops);
}

/// What a tube board receives: a byte on either serial port, or a timer tick.
pub enum Event {
    Rx1(u8),
    Rx2(u8),
    TimerFired,
}

/// The tubes of a board, counted from the side of serial port 1.
pub open spec fn rx1_order() -> Seq<PWMPin> {
    seq![PWMPin::D, PWMPin::C, PWMPin::B, PWMPin::A]
}

/// The tubes of a board, counted from the side of serial port 2.
pub open spec fn rx2_order() -> Seq<PWMPin> {
    seq![PWMPin::A, PWMPin::B, PWMPin::C, PWMPin::D]
}

/// How a board reacts to what its parser reports: an update sets a tube, the
/// outputs reporting the maximum duty `m`; a packet to pass on goes to the
/// queue `q` of the other port.
pub open spec fn reaction(
    o: PwmModel,
    n: PwmModel,
    q_old: Seq<u8>,
    q_new: Seq<u8>,
    capacity: nat,
    e: Option<PktEvent<PWMPin>>,
) -> bool {
    match e {
        None => n == o && q_new == q_old,
        Some(PktEvent::Update { which, brightness }) => n == after_set_pwm(
            o,
            which,
            brightness@,
            n.max_log.last(),
        ) && q_new == q_old,
        Some(PktEvent::Send { pkt }) => n == o && q_new == queued_frame(q_old, capacity, pkt),
    }
}

/// The tube that a `SetLevel` with hop count `i` (below 4) reaches on a
/// board: counted from serial port 2 the tubes are A, B, C, D; from serial
/// port 1 they are D, C, B, A, so the two ports count from opposite ends and
/// hop count `i` on one port names the tube of hop count `3 - i` on the
/// other. A higher hop count is passed on, less the board's four tubes.
pub proof fn lemma_port_tube_order(v: (Seq<u8>, nat), x: u8, ttl: i8, b: Brightness)
    requires
        crate::protocol::parser_output(v, x) == Some(
            crate::protocol::Pkt::SetLevel { ttl, brightness: b },
        ),
        ttl >= 0,
    ensures
        ttl == 0 ==> parser_event(v, x, rx2_order()) == Some(
            PktEvent::Update { which: PWMPin::A, brightness: b },
        ) && parser_event(v, x, rx1_order()) == Some(
            PktEvent::Update { which: PWMPin::D, brightness: b },
        ),
        ttl == 1 ==> parser_event(v, x, rx2_order()) == Some(
            PktEvent::Update { which: PWMPin::B, brightness: b },
        ) && parser_event(v, x, rx1_order()) == Some(
            PktEvent::Update { which: PWMPin::C, brightness: b },
        ),
        ttl == 2 ==> parser_event(v, x, rx2_order()) == Some(
            PktEvent::Update { which: PWMPin::C, brightness: b },
        ) && parser_event(v, x, rx1_order()) == Some(
            PktEvent::Update { which: PWMPin::B, brightness: b },
        ),
        ttl == 3 ==> parser_event(v, x, rx2_order()) == Some(
            PktEvent::Update { which: PWMPin::D, brightness: b },
        ) && parser_event(v, x, rx1_order()) == Some(
            PktEvent::Update { which: PWMPin::A, brightness: b },
        ),
        ttl < 4 ==> (parser_event(v, x, rx2_order()) matches Some(
            PktEvent::Update { which: w2, .. },
        ) && parser_event(v, x, rx1_order()) matches Some(
            PktEvent::Update { which: w1, .. },
        ) && pin_index(w2) + pin_index(w1) == 3 && pin_index(w2) == ttl),
        ttl >= 4 ==> parser_event(v, x, rx2_order()) == Some(
            PktEvent::<PWMPin>::Send {
                pkt: crate::protocol::Pkt::SetLevel { ttl: (ttl - 4) as i8, brightness: b },
            },
        ) && parser_event(v, x, rx1_order()) == Some(
            PktEvent::<PWMPin>::Send {
                pkt: crate::protocol::Pkt::SetLevel { ttl: (ttl - 4) as i8, brightness: b },
            },
        ),
{
}

/// The level of frame `frame` of the start-up pattern, which ramps the tubes
/// up through 1023 levels spaced 16 apart and back down.
pub open spec fn startup_level(frame: int) -> u16 {
    if frame < 1023 {
        (frame * 16) as u16
    } else {
        ((2045 - frame) * 16) as u16
    }
}

/// The number of frames in the start-up pattern.
pub const STARTUP_FRAMES: usize = 2046;

/// A tube board: a parser on each serial port, and the tubes.
pub struct State<PowerPin, PWM> {
    p1: ParseState,
    p2: ParseState,
    pwm: PwmManager<PowerPin, PWM>,
}

impl<PowerPin, PWM> View for State<PowerPin, PWM> {
    type V = ((Seq<u8>, nat), (Seq<u8>, nat), PwmModel);

    closed spec fn view(&self) -> ((Seq<u8>, nat), (Seq<u8>, nat), PwmModel) {
        (self.p1@, self.p2@, self.pwm@)
    }
}

impl<PowerPin, PWM> State<PowerPin, PWM> where PowerPin: DigitalOutput, PWM: PWMx4 {
    /// Neither tick count is at the largest `usize`.
    pub open spec fn can_tick(self) -> bool {
        self@.2.zero_ticks < usize::MAX && self@.2.update_ticks < usize::MAX
    }

    /// A board with idle parsers, all outputs at 0 and the supply warming up.
    pub fn new(hv_pwr_en: PowerPin, pwm: PWM) -> (r: State<PowerPin, PWM>)
        ensures
            r@.0 == fresh_parser(),
            r@.1 == fresh_parser(),
            r@.2.power == (PowerState::EnergizingFor { ticks: 0 }),
            r@.2.pin_log == seq![false, true],
            r@.2.duties == seq![0u32, 0u32, 0u32, 0u32],
            r@.2.zero_ticks == 0,
            r@.2.update_ticks == 0,
            r@.2.duty_log == zero_writes(),
            r@.2.max_log == Seq::<u32>::empty(),
    {
        let hv = HV::init(hv_pwr_en);
        let p1 = ParseState::new();
        let p2 = ParseState::new();
        let r = State { p1, p2, pwm: PwmManager::new(hv, pwm) };
        assert(r@.2.pin_log =~= seq![false, true]);
        r
    }

    /// Handles one event. A byte on a port goes to that port's parser; an
    /// update from it sets a tube, and a packet to pass on is queued on the
    /// other port. A timer tick goes to the tubes.
    pub fn update(&mut self, evt: Event, u1_out: &mut RingBuf<u8>, u2_out: &mut RingBuf<u8>)
        requires
            evt is TimerFired ==> old(self).can_tick(),
        ensures
            final(u1_out).capacity() == old(u1_out).capacity(),
            final(u2_out).capacity() == old(u2_out).capacity(),
            match evt {
                Event::Rx1(byte) => {
                    &&& final(self)@.0 == parser_next(old(self)@.0, byte)
                    &&& final(self)@.1 == old(self)@.1
                    &&& final(u1_out)@ == old(u1_out)@
                    &&& reaction(
                        old(self)@.2,
                        final(self)@.2,
                        old(u2_out)@,
                        final(u2_out)@,
                        old(u2_out).capacity(),
                        parser_event(old(self)@.0, byte, rx1_order()),
                    )
                },
                Event::Rx2(byte) => {
                    &&& final(self)@.1 == parser_next(old(self)@.1, byte)
                    &&& final(self)@.0 == old(self)@.0
                    &&& final(u2_out)@ == old(u2_out)@
                    &&& reaction(
                        old(self)@.2,
                        final(self)@.2,
                        old(u1_out)@,
                        final(u1_out)@,
                        old(u1_out).capacity(),
                        parser_event(old(self)@.1, byte, rx2_order()),
                    )
                },
                Event::TimerFired => {
                    &&& final(self)@.0 == old(self)@.0
                    &&& final(self)@.1 == old(self)@.1
                    &&& final(self)@.2 == after_tick(old(self)@.2)
                    &&& final(u1_out)@ == old(u1_out)@
                    &&& final(u2_out)@ == old(u2_out)@
                },
            },
    {
        match evt {
            Event::Rx1(byte) => {
                let order = [PWMPin::D, PWMPin::C, PWMPin::B, PWMPin::A];
                assert(order@ =~= rx1_order());
                match self.p1.step(order.as_slice(), byte) {
                    Some(PktEvent::Update { which, brightness }) => self.pwm.set_pwm(which, brightness),
                    Some(PktEvent::Send { pkt }) => u2_out.consume(pkt),
                    None => {},
                }
            },
            Event::Rx2(byte) => {
                let order = [PWMPin::A, PWMPin::B, PWMPin::C, PWMPin::D];
                assert(order@ =~= rx2_order());
                match self.p2.step(order.as_slice(), byte) {
                    Some(PktEvent::Update { which, brightness }) => self.pwm.set_pwm(which, brightness),
                    Some(PktEvent::Send { pkt }) => u1_out.consume(pkt),
                    None => {},
                }
            },
            Event::TimerFired => self.pwm.tick(),
        }
    }

    /// Shows frame `frame` of the start-up pattern on all four tubes, A to D;
    /// returns whether the pattern has such a frame. Showing frames 0, 1, 2,
    /// ... until this returns `false`, pausing after each, plays the pattern.
    pub fn display_startup_pattern(&mut self, frame: usize) -> (shown: bool)
        ensures
            shown == (frame < STARTUP_FRAMES),
            final(self)@.0 == old(self)@.0,
            final(self)@.1 == old(self)@.1,
            !shown ==> final(self)@.2 == old(self)@.2,
            shown ==> ({
                let m = final(self)@.2.max_log;
                let n = m.len() as int;
                let l = startup_level(frame as int);
                final(self)@.2 == after_set_pwm(
                    after_set_pwm(
                        after_set_pwm(after_set_pwm(old(self)@.2, PWMPin::A, l, m[n - 4]), PWMPin::B, l, m[n - 3]),
                        PWMPin::C,
                        l,
                        m[n - 2],
                    ),
                    PWMPin::D,
                    l,
                    m[n - 1],
                )
            }),
    {
        if frame >= STARTUP_FRAMES {
            return false;
        }
        let x: u16 = if frame < 1023 {
            frame as u16
        } else {
            (2045 - frame) as u16
        };
        let brightness = Brightness::new(x * 16).unwrap();
        let ghost s0 = self.pwm@;
        self.pwm.set_pwm(PWMPin::A, brightness);
        let ghost s1 = self.pwm@;
        self.pwm.set_pwm(PWMPin::B, brightness);
        let ghost s2 = self.pwm@;
        self.pwm.set_pwm(PWMPin::C, brightness);
        let ghost s3 = self.pwm@;
        self.pwm.set_pwm(PWMPin::D, brightness);
        proof {
            let m = self.pwm@.max_log;
            let n = m.len() as int;
            assert(m[n - 1] == self.pwm@.max_log.last());
            assert(m[n - 2] == s3.max_log.last());
            assert(m[n - 3] == s2.max_log.last());
            assert(m[n - 4] == s1.max_log.last());
        }
        true
    }
}

} // verus!
