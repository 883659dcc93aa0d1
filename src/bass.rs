//! The fish's two motors: the mouth direction state machine, the head
//! controller and the movement sequencer. Each operation updates the model
//! of the hardware and returns the plan of actions that performs it.
use crate::command::MouthMovement;
use crate::hardware::{
    all_guarded, duty_actions, idle, lemma_run_duties, lemma_run_push, plans_compose, push_duties,
    run, Action, Hardware, Motor, MotorState, DUTY_MAX,
};
use crate::ramp::{decay, decay_writes, descend, fall, ramp, ramp_writes, DutyWrite};
use vstd::prelude::*;

verus! {

/// Duty step of the mouth ramps.
pub const MOUTH_STEP: u32 = 8;
/// Pause after each rising mouth write.
pub const MOUTH_DELAY_UP_MS: u32 = 3;
/// Pause after each falling mouth write.
pub const MOUTH_DELAY_DOWN_MS: u32 = 2;
/// Pause between cutting the mouth's duty and reversing its pins.
pub const SETTLE_MS: u32 = 20;
/// Pause after the final zero write of a mouth stop.
pub const STOP_HOLD_MS: u32 = 5;
/// Duty step of the head's hold ramp.
pub const HEAD_STEP: u32 = 16;
/// Pause after each write of the head's hold ramp.
pub const HEAD_DELAY_MS: u32 = 5;
/// The head's decay factor is `HEAD_DECAY_NUM / HEAD_DECAY_DEN`.
pub const HEAD_DECAY_NUM: u32 = 19;
pub const HEAD_DECAY_DEN: u32 = 20;
/// Pause after each write of the head's decay.
pub const HEAD_DECAY_DELAY_MS: u32 = 50;

#[derive(Clone, Copy, Debug, PartialEq, Eq, Structural)]
pub enum MouthDirection {
    Opening,
    Closing,
}

/// The levels of the mouth's two direction pins that drive it one way.
pub open spec fn pins_for(d: MouthDirection) -> (bool, bool) {
    match d {
        MouthDirection::Opening => (false, true),
        MouthDirection::Closing => (true, false),
    }
}

/// A direction change: cut the duty at once if the mouth is driven, then
/// drive the pins of the new direction. Nothing if the direction stays.
pub open spec fn direction_plan(h: Hardware, current: MouthDirection, requested: MouthDirection) -> Seq<
    Action,
> {
    if requested == current {
        Seq::empty()
    } else {
        let stop = if h.mouth.duty > 0 {
            seq![Action::Duty(Motor::Mouth, DutyWrite { duty: 0, wait_ms: SETTLE_MS })]
        } else {
            Seq::empty()
        };
        stop.push(Action::Pins(Motor::Mouth, pins_for(requested).0, pins_for(requested).1))
    }
}

pub open spec fn after_direction(h: Hardware, current: MouthDirection, requested: MouthDirection) -> Hardware {
    if requested == current {
        h
    } else {
        Hardware {
            head: h.head,
            mouth: MotorState { duty: 0, pin_a: pins_for(requested).0, pin_b: pins_for(requested).1 },
        }
    }
}

/// The mouth's ramp from one duty to a speed.
pub open spec fn mouth_writes(from: u32, speed: u8) -> Seq<DutyWrite> {
    ramp_writes(
        from as int,
        speed as int,
        MOUTH_STEP as int,
        MOUTH_DELAY_UP_MS,
        MOUTH_DELAY_DOWN_MS,
    )
}

/// Set the direction, then ramp the mouth to `speed`.
pub open spec fn mouth_set_plan(
    h: Hardware,
    current: MouthDirection,
    requested: MouthDirection,
    speed: u8,
) -> Seq<Action> {
    direction_plan(h, current, requested) + duty_actions(
        Motor::Mouth,
        mouth_writes(after_direction(h, current, requested).mouth.duty, speed),
    )
}

pub open spec fn after_mouth_set(
    h: Hardware,
    current: MouthDirection,
    requested: MouthDirection,
    speed: u8,
) -> Hardware {
    let d = after_direction(h, current, requested);
    Hardware {
        head: h.head,
        mouth: MotorState { duty: speed as u32, pin_a: d.mouth.pin_a, pin_b: d.mouth.pin_b },
    }
}

/// Ramp the mouth down to zero, write zero, then put both pins low.
pub open spec fn mouth_stop_plan(h: Hardware) -> Seq<Action> {
    duty_actions(
        Motor::Mouth,
        fall(h.mouth.duty - 1, 0, MOUTH_STEP as int, MOUTH_DELAY_DOWN_MS),
    ) + seq![
        Action::Duty(Motor::Mouth, DutyWrite { duty: 0, wait_ms: STOP_HOLD_MS }),
        Action::Pins(Motor::Mouth, false, false),
    ]
}

pub open spec fn after_mouth_stop(h: Hardware) -> Hardware {
    Hardware { head: h.head, mouth: idle() }
}

/// Drive the head's pins one way, write zero, and ramp its duty from zero
/// to the maximum.
pub open spec fn head_hold_plan() -> Seq<Action> {
    seq![
        Action::Pins(Motor::Head, true, false),
        Action::Duty(Motor::Head, DutyWrite { duty: 0, wait_ms: HEAD_DELAY_MS }),
    ] + duty_actions(
        Motor::Head,
        ramp_writes(0, DUTY_MAX as int, HEAD_STEP as int, HEAD_DELAY_MS, HEAD_DELAY_MS),
    )
}

/// Let the head's duty decay to rest.
pub open spec fn head_stop_plan(h: Hardware) -> Seq<Action> {
    duty_actions(
        Motor::Head,
        decay_writes(
            h.head.duty as int,
            HEAD_DECAY_NUM as int,
            HEAD_DECAY_DEN as int,
            HEAD_DECAY_DELAY_MS,
        ),
    )
}

pub open spec fn movement_direction(m: MouthMovement) -> MouthDirection {
    if m.is_opening {
        MouthDirection::Opening
    } else {
        MouthDirection::Closing
    }
}

/// One movement: set the mouth, hold for the movement's duration, stop.
pub open spec fn movement_plan(h: Hardware, current: MouthDirection, m: MouthMovement) -> Seq<Action> {
    let set = after_mouth_set(h, current, movement_direction(m), m.speed);
    mouth_set_plan(h, current, movement_direction(m), m.speed) + seq![Action::Wait(m.duration_ms)]
        + mouth_stop_plan(set)
}

/// The movements, each run to completion before the next, in order.
pub open spec fn sequence_plan(h: Hardware, current: MouthDirection, ms: Seq<MouthMovement>) -> Seq<
    Action,
>
    decreases ms.len(),
{
    if ms.len() == 0 {
        Seq::empty()
    } else {
        movement_plan(h, current, ms[0]) + sequence_plan(
            after_mouth_stop(h),
            movement_direction(ms[0]),
            ms.drop_first(),
        )
    }
}

/// The controller of the fish's motors. It owns the model of what the
/// hardware is driven with; the plans it returns must be performed in the
/// order they are returned.
pub struct BillyBass {
    hw: Hardware,
    current_mouth_direction: MouthDirection,
}

impl BillyBass {
    pub closed spec fn hardware(&self) -> Hardware {
        self.hw
    }

    pub closed spec fn direction(&self) -> MouthDirection {
        self.current_mouth_direction
    }

    /// Both duties are within the PWM's range.
    pub open spec fn wf(&self) -> bool {
        self.hardware().head.duty <= DUTY_MAX && self.hardware().mouth.duty <= DUTY_MAX
    }

    /// Both motors at rest, the mouth's direction Opening.
    pub fn new() -> (b: BillyBass)
        ensures
            b.wf(),
            b.hardware() == (Hardware { head: idle(), mouth: idle() }),
            b.direction() == MouthDirection::Opening,
    {
        let rest = MotorState { duty: 0, pin_a: false, pin_b: false };
        BillyBass {
            hw: Hardware { head: rest, mouth: rest },
            current_mouth_direction: MouthDirection::Opening,
        }
    }

    /// What the motors are driven with.
    pub fn state(&self) -> (h: Hardware)
        ensures
            h == self.hardware(),
    {
        self.hw
    }

    pub fn current_mouth_direction(&self) -> (d: MouthDirection)
        ensures
            d == self.direction(),
    {
        self.current_mouth_direction
    }

    fn plan_direction(&mut self, plan: &mut Vec<Action>, direction: MouthDirection)
        requires
            old(self).wf(),
        ensures
            final(plan)@ == old(plan)@ + direction_plan(
                old(self).hardware(),
                old(self).direction(),
                direction,
            ),
            final(self).hardware() == after_direction(
                old(self).hardware(),
                old(self).direction(),
                direction,
            ),
            final(self).direction() == direction,
            final(self).wf(),
    {
        if direction != self.current_mouth_direction {
            let ghost start = plan@;
            let ghost h = self.hw;
            if self.hw.mouth.duty > 0 {
                plan.push(Action::Duty(Motor::Mouth, DutyWrite { duty: 0, wait_ms: SETTLE_MS }));
                self.hw.mouth.duty = 0;
            }
            let (pin_a, pin_b) = match direction {
                MouthDirection::Opening => (false, true),
                MouthDirection::Closing => (true, false),
            };
            plan.push(Action::Pins(Motor::Mouth, pin_a, pin_b));
            self.hw.mouth.pin_a = pin_a;
            self.hw.mouth.pin_b = pin_b;
            self.current_mouth_direction = direction;
            assert(plan@ =~= start + direction_plan(h, old(self).direction(), direction));
        }
        assert(plan@ =~= old(plan)@ + direction_plan(
            old(self).hardware(),
            old(self).direction(),
            direction,
        ));
    }

    fn plan_mouth_set(&mut self, plan: &mut Vec<Action>, direction: MouthDirection, speed: u8)
        requires
            old(self).wf(),
        ensures
            final(plan)@ == old(plan)@ + mouth_set_plan(
                old(self).hardware(),
                old(self).direction(),
                direction,
                speed,
            ),
            final(self).hardware() == after_mouth_set(
                old(self).hardware(),
                old(self).direction(),
                direction,
                speed,
            ),
            final(self).direction() == direction,
            final(self).wf(),
    {
        self.plan_direction(plan, direction);
        let writes = ramp(
            self.hw.mouth.duty,
            speed as u32,
            MOUTH_STEP,
            MOUTH_DELAY_UP_MS,
            MOUTH_DELAY_DOWN_MS,
        );
        push_duties(plan, Motor::Mouth, &writes);
        self.hw.mouth.duty = speed as u32;
        assert(plan@ =~= old(plan)@ + mouth_set_plan(
            old(self).hardware(),
            old(self).direction(),
            direction,
            speed,
        ));
    }

    fn plan_mouth_stop(&mut self, plan: &mut Vec<Action>)
        requires
            old(self).wf(),
        ensures
            final(plan)@ == old(plan)@ + mouth_stop_plan(old(self).hardware()),
            final(self).hardware() == after_mouth_stop(old(self).hardware()),
            final(self).direction() == old(self).direction(),
            final(self).wf(),
    {
        let writes = descend(self.hw.mouth.duty, 0, MOUTH_STEP, MOUTH_DELAY_DOWN_MS);
        push_duties(plan, Motor::Mouth, &writes);
        plan.push(Action::Duty(Motor::Mouth, DutyWrite { duty: 0, wait_ms: STOP_HOLD_MS }));
        plan.push(Action::Pins(Motor::Mouth, false, false));
        self.hw.mouth = MotorState { duty: 0, pin_a: false, pin_b: false };
        assert(plan@ =~= old(plan)@ + mouth_stop_plan(old(self).hardware()));
    }

    /// Sets the mouth's direction, then ramps its duty to `speed`.
    pub fn mouth_set(&mut self, direction: MouthDirection, speed: u8) -> (plan: Vec<Action>)
        requires
            old(self).wf(),
        ensures
            plan@ == mouth_set_plan(old(self).hardware(), old(self).direction(), direction, speed),
            final(self).hardware() == after_mouth_set(
                old(self).hardware(),
                old(self).direction(),
                direction,
                speed,
            ),
            final(self).hardware() == run(old(self).hardware(), plan@),
            all_guarded(old(self).hardware(), plan@),
            final(self).direction() == direction,
            final(self).wf(),
    {
        let mut plan: Vec<Action> = Vec::new();
        self.plan_mouth_set(&mut plan, direction, speed);
        proof {
            mouth_set_is_guarded(old(self).hardware(), old(self).direction(), direction, speed);
            assert(plan@ =~= mouth_set_plan(old(self).hardware(), old(self).direction(), direction, speed));
        }
        plan
    }

    pub fn mouth_open(&mut self, speed: u8) -> (plan: Vec<Action>)
        requires
            old(self).wf(),
        ensures
            plan@ == mouth_set_plan(
                old(self).hardware(),
                old(self).direction(),
                MouthDirection::Opening,
                speed,
            ),
            final(self).hardware() == after_mouth_set(
                old(self).hardware(),
                old(self).direction(),
                MouthDirection::Opening,
                speed,
            ),
            final(self).hardware() == run(old(self).hardware(), plan@),
            all_guarded(old(self).hardware(), plan@),
            final(self).direction() == MouthDirection::Opening,
            final(self).wf(),
    {
        self.mouth_set(MouthDirection::Opening, speed)
    }

    pub fn mouth_close(&mut self, speed: u8) -> (plan: Vec<Action>)
        requires
            old(self).wf(),
        ensures
            plan@ == mouth_set_plan(
                old(self).hardware(),
                old(self).direction(),
                MouthDirection::Closing,
                speed,
            ),
            final(self).hardware() == after_mouth_set(
                old(self).hardware(),
                old(self).direction(),
                MouthDirection::Closing,
                speed,
            ),
            final(self).hardware() == run(old(self).hardware(), plan@),
            all_guarded(old(self).hardware(), plan@),
            final(self).direction() == MouthDirection::Closing,
            final(self).wf(),
    {
        self.mouth_set(MouthDirection::Closing, speed)
    }

    /// Ramps the mouth down to zero and puts both its pins low. The
    /// direction is kept.
    pub fn mouth_stop(&mut self) -> (plan: Vec<Action>)
        requires
            old(self).wf(),
        ensures
            plan@ == mouth_stop_plan(old(self).hardware()),
            final(self).hardware() == after_mouth_stop(old(self).hardware()),
            final(self).hardware() == run(old(self).hardware(), plan@),
            all_guarded(old(self).hardware(), plan@),
            final(self).hardware().mouth == idle(),
            final(self).direction() == old(self).direction(),
            final(self).wf(),
    {
        let mut plan: Vec<Action> = Vec::new();
        self.plan_mouth_stop(&mut plan);
        proof {
            mouth_stop_rests(old(self).hardware());
            assert(plan@ =~= mouth_stop_plan(old(self).hardware()));
        }
        plan
    }

    /// Opens the mouth at `open_speed` for `open_time` ms, closes it at
    /// `close_speed` for `close_time` ms, then stops it.
    pub fn speak_syllable(&mut self, open_speed: u8, close_speed: u8, open_time: u32, close_time: u32) -> (plan:
        Vec<Action>)
        requires
            old(self).wf(),
        ensures
            plan@ == syllable_plan(
                old(self).hardware(),
                old(self).direction(),
                open_speed,
                close_speed,
                open_time,
                close_time,
            ),
            final(self).hardware() == after_mouth_stop(old(self).hardware()),
            final(self).hardware() == run(old(self).hardware(), plan@),
            all_guarded(old(self).hardware(), plan@),
            final(self).direction() == MouthDirection::Closing,
            final(self).wf(),
    {
        let ghost h = self.hw;
        let ghost d = self.current_mouth_direction;
        let mut plan: Vec<Action> = Vec::new();
        self.plan_mouth_set(&mut plan, MouthDirection::Opening, open_speed);
        plan.push(Action::Wait(open_time));
        self.plan_mouth_set(&mut plan, MouthDirection::Closing, close_speed);
        plan.push(Action::Wait(close_time));
        self.plan_mouth_stop(&mut plan);
        proof {
            syllable_is_guarded(h, d, open_speed, close_speed, open_time, close_time);
            assert(plan@ =~= syllable_plan(h, d, open_speed, close_speed, open_time, close_time));
        }
        plan
    }

    /// Drives the head's pins one way, writes a zero duty, and ramps the
    /// duty from zero to the maximum.
    pub fn head_hold_soft(&mut self) -> (plan: Vec<Action>)
        requires
            old(self).wf(),
        ensures
            plan@ == head_hold_plan(),
            final(self).hardware() == run(old(self).hardware(), plan@),
            all_guarded(old(self).hardware(), plan@),
            final(self).hardware().head == (MotorState { duty: DUTY_MAX, pin_a: true, pin_b: false }),
            final(self).hardware().mouth == old(self).hardware().mouth,
            final(self).direction() == old(self).direction(),
            final(self).wf(),
    {
        let mut plan: Vec<Action> = Vec::new();
        plan.push(Action::Pins(Motor::Head, true, false));
        plan.push(Action::Duty(Motor::Head, DutyWrite { duty: 0, wait_ms: HEAD_DELAY_MS }));
        let writes = ramp(0, DUTY_MAX, HEAD_STEP, HEAD_DELAY_MS, HEAD_DELAY_MS);
        push_duties(&mut plan, Motor::Head, &writes);
        self.hw.head = MotorState { duty: DUTY_MAX, pin_a: true, pin_b: false };
        proof {
            head_hold_lifts(old(self).hardware());
            assert(plan@ =~= head_hold_plan());
        }
        plan
    }

    /// Lets the head's duty decay by the head's factor until it rests.
    pub fn head_slowed_stop(&mut self) -> (plan: Vec<Action>)
        requires
            old(self).wf(),
        ensures
            plan@ == head_stop_plan(old(self).hardware()),
            final(self).hardware() == run(old(self).hardware(), plan@),
            all_guarded(old(self).hardware(), plan@),
            final(self).hardware().head.duty == 0,
            final(self).hardware().head.pin_a == old(self).hardware().head.pin_a,
            final(self).hardware().head.pin_b == old(self).hardware().head.pin_b,
            final(self).hardware().mouth == old(self).hardware().mouth,
            final(self).direction() == old(self).direction(),
            final(self).wf(),
    {
        let writes = decay(self.hw.head.duty, HEAD_DECAY_NUM, HEAD_DECAY_DEN, HEAD_DECAY_DELAY_MS);
        let mut plan: Vec<Action> = Vec::new();
        push_duties(&mut plan, Motor::Head, &writes);
        self.hw.head.duty = 0;
        proof {
            head_slowed_stop_rests(old(self).hardware());
            assert(plan@ =~= head_stop_plan(old(self).hardware()));
        }
        plan
    }

    /// Runs the movements in order, each to completion: set the mouth, hold
    /// for the movement's duration, stop the mouth. Movements are chained
    /// back to back; their start offsets are not waited for.
    pub fn execute(&mut self, movements: &Vec<MouthMovement>) -> (plan: Vec<Action>)
        requires
            old(self).wf(),
        ensures
            plan@ == sequence_plan(old(self).hardware(), old(self).direction(), movements@),
            final(self).hardware() == run(old(self).hardware(), plan@),
            all_guarded(old(self).hardware(), plan@),
            movements@.len() == 0 ==> final(self).hardware() == old(self).hardware()
                && final(self).direction() == old(self).direction(),
            movements@.len() > 0 ==> final(self).hardware() == after_mouth_stop(old(self).hardware())
                && final(self).direction() == movement_direction(movements@.last()),
            final(self).wf(),
    {
        let ghost h0 = self.hw;
        let ghost d0 = self.current_mouth_direction;
        let mut plan: Vec<Action> = Vec::new();
        let mut i: usize = 0;
        assert(movements@.skip(0) =~= movements@);
        assert(plan@ + sequence_plan(h0, d0, movements@) =~= sequence_plan(h0, d0, movements@));
        while i < movements.len()
            invariant
                self.wf(),
                i <= movements@.len(),
                plan@ + sequence_plan(self.hw, self.current_mouth_direction, movements@.skip(i as int))
                    == sequence_plan(h0, d0, movements@),
                i == 0 ==> self.hw == h0 && self.current_mouth_direction == d0,
                i > 0 ==> self.hw == after_mouth_stop(h0) && self.current_mouth_direction
                    == movement_direction(movements@[i - 1]),
            decreases movements@.len() - i,
        {
            let m = movements[i];
            let ghost h = self.hw;
            let ghost d = self.current_mouth_direction;
            let ghost before = plan@;
            let direction = if m.is_opening {
                MouthDirection::Opening
            } else {
                MouthDirection::Closing
            };
            self.plan_mouth_set(&mut plan, direction, m.speed);
            plan.push(Action::Wait(m.duration_ms));
            self.plan_mouth_stop(&mut plan);
            proof {
                let rest = movements@.skip(i as int);
                assert(rest[0] == m);
                assert(rest.drop_first() =~= movements@.skip(i + 1));
                assert(plan@ =~= before + movement_plan(h, d, m));
                assert(sequence_plan(h, d, rest) == movement_plan(h, d, m) + sequence_plan(
                    after_mouth_stop(h),
                    direction,
                    movements@.skip(i + 1),
                ));
                assert(after_mouth_stop(h) == after_mouth_stop(h0));
                assert(before + sequence_plan(h, d, rest) =~= plan@ + sequence_plan(
                    after_mouth_stop(h),
                    direction,
                    movements@.skip(i + 1),
                ));
            }
            i = i + 1;
        }
        proof {
            assert(plan@ =~= sequence_plan(h0, d0, movements@));
            sequence_is_guarded(h0, d0, movements@);
        }
        plan
    }
}


impl Default for BillyBass {
    fn default() -> (b: BillyBass)
        ensures
            b.wf(),
            b.hardware() == (Hardware { head: idle(), mouth: idle() }),
            b.direction() == MouthDirection::Opening,
    {
        BillyBass::new()
    }
}

/// A syllable: open, hold, close, hold, stop.
pub open spec fn syllable_plan(
    h: Hardware,
    current: MouthDirection,
    open_speed: u8,
    close_speed: u8,
    open_time: u32,
    close_time: u32,
) -> Seq<Action> {
    let opened = after_mouth_set(h, current, MouthDirection::Opening, open_speed);
    let closed = after_mouth_set(opened, MouthDirection::Opening, MouthDirection::Closing, close_speed);
    mouth_set_plan(h, current, MouthDirection::Opening, open_speed) + seq![Action::Wait(open_time)]
        + mouth_set_plan(opened, MouthDirection::Opening, MouthDirection::Closing, close_speed)
        + seq![Action::Wait(close_time)] + mouth_stop_plan(closed)
}

/// Setting the mouth's direction and speed never drives its pins while it
/// has duty, and leaves the hardware as `after_mouth_set` says.
pub proof fn mouth_set_is_guarded(
    h: Hardware,
    current: MouthDirection,
    requested: MouthDirection,
    speed: u8,
)
    ensures
        all_guarded(h, mouth_set_plan(h, current, requested, speed)),
        run(h, mouth_set_plan(h, current, requested, speed)) == after_mouth_set(
            h,
            current,
            requested,
            speed,
        ),
{
    let d = direction_plan(h, current, requested);
    let hd = after_direction(h, current, requested);
    if requested != current {
        let pins = Action::Pins(Motor::Mouth, pins_for(requested).0, pins_for(requested).1);
        if h.mouth.duty > 0 {
            let cut = Action::Duty(Motor::Mouth, DutyWrite { duty: 0, wait_ms: SETTLE_MS });
            lemma_run_push(h, Seq::empty(), cut);
            assert(Seq::<Action>::empty().push(cut) =~= seq![cut]);
            lemma_run_push(h, seq![cut], pins);
        } else {
            lemma_run_push(h, Seq::empty(), pins);
            assert(Seq::<Action>::empty().push(pins) =~= d);
        }
    }
    assert(run(h, d) == hd);
    let w = mouth_writes(hd.mouth.duty, speed);
    lemma_run_duties(hd, Motor::Mouth, w);
    plans_compose(h, d, duty_actions(Motor::Mouth, w));
    if hd.mouth.duty != speed as u32 {
        crate::ramp::ramp_converges(
            hd.mouth.duty,
            speed as u32,
            MOUTH_STEP,
            MOUTH_DELAY_UP_MS,
            MOUTH_DELAY_DOWN_MS,
        );
    }
}

/// Reversing a driven mouth first writes a zero duty and waits the settle
/// delay, then drives the pins of the new direction, and only then ramps.
pub proof fn reversal_settles(h: Hardware, current: MouthDirection, requested: MouthDirection, speed: u8)
    requires
        requested != current,
        h.mouth.duty > 0,
    ensures
        ({
            let p = mouth_set_plan(h, current, requested, speed);
            &&& p.len() >= 2
            &&& p[0] == Action::Duty(Motor::Mouth, DutyWrite { duty: 0, wait_ms: SETTLE_MS })
            &&& p[1] == Action::Pins(Motor::Mouth, pins_for(requested).0, pins_for(requested).1)
            &&& forall|i: int| 2 <= i < p.len() ==> #[trigger] p[i] matches Action::Duty(Motor::Mouth, _)
        }),
{
    let d = direction_plan(h, current, requested);
    let w = mouth_writes(0, speed);
    let p = mouth_set_plan(h, current, requested, speed);
    assert(d.len() == 2);
    assert forall|i: int| 2 <= i < p.len() implies #[trigger] p[i] matches Action::Duty(Motor::Mouth, _) by {
        assert(p[i] == duty_actions(Motor::Mouth, w)[i - 2]);
    }
}

/// Stopping the mouth, from any duty and direction, leaves it with no duty
/// and both pins low, touches nothing else, and drives the pins only once
/// the duty is zero.
pub proof fn mouth_stop_rests(h: Hardware)
    ensures
        all_guarded(h, mouth_stop_plan(h)),
        run(h, mouth_stop_plan(h)) == after_mouth_stop(h),
        run(h, mouth_stop_plan(h)).mouth == idle(),
{
    let f = fall(h.mouth.duty - 1, 0, MOUTH_STEP as int, MOUTH_DELAY_DOWN_MS);
    let a = duty_actions(Motor::Mouth, f);
    let cut = Action::Duty(Motor::Mouth, DutyWrite { duty: 0, wait_ms: STOP_HOLD_MS });
    let pins = Action::Pins(Motor::Mouth, false, false);
    lemma_run_duties(h, Motor::Mouth, f);
    lemma_run_push(h, a, cut);
    lemma_run_push(h, a.push(cut), pins);
    assert(mouth_stop_plan(h) =~= a.push(cut).push(pins));
}

proof fn lemma_then_wait(h: Hardware, first: Seq<Action>, ms: u32, second: Seq<Action>)
    ensures
        run(h, first + seq![Action::Wait(ms)] + second) == run(run(h, first), second),
        all_guarded(h, first + seq![Action::Wait(ms)] + second) == (all_guarded(h, first)
            && all_guarded(run(h, first), second)),
{
    lemma_run_push(h, first, Action::Wait(ms));
    assert(first + seq![Action::Wait(ms)] =~= first.push(Action::Wait(ms)));
    plans_compose(h, first + seq![Action::Wait(ms)], second);
}

proof fn syllable_is_guarded(
    h: Hardware,
    current: MouthDirection,
    open_speed: u8,
    close_speed: u8,
    open_time: u32,
    close_time: u32,
)
    ensures
        all_guarded(h, syllable_plan(h, current, open_speed, close_speed, open_time, close_time)),
        run(h, syllable_plan(h, current, open_speed, close_speed, open_time, close_time))
            == after_mouth_stop(h),
{
    let opened = after_mouth_set(h, current, MouthDirection::Opening, open_speed);
    let closed = after_mouth_set(opened, MouthDirection::Opening, MouthDirection::Closing, close_speed);
    let p1 = mouth_set_plan(h, current, MouthDirection::Opening, open_speed);
    let p2 = mouth_set_plan(opened, MouthDirection::Opening, MouthDirection::Closing, close_speed);
    let p3 = mouth_stop_plan(closed);
    mouth_set_is_guarded(h, current, MouthDirection::Opening, open_speed);
    mouth_set_is_guarded(opened, MouthDirection::Opening, MouthDirection::Closing, close_speed);
    mouth_stop_rests(closed);
    lemma_then_wait(opened, p2, close_time, p3);
    lemma_then_wait(h, p1, open_time, p2 + seq![Action::Wait(close_time)] + p3);
    assert(syllable_plan(h, current, open_speed, close_speed, open_time, close_time) =~= p1
        + seq![Action::Wait(open_time)] + (p2 + seq![Action::Wait(close_time)] + p3));
}

/// One movement leaves the mouth at rest and the head as it was, and never
/// drives the mouth's pins while it has duty.
pub proof fn movement_is_guarded(h: Hardware, current: MouthDirection, m: MouthMovement)
    ensures
        all_guarded(h, movement_plan(h, current, m)),
        run(h, movement_plan(h, current, m)) == after_mouth_stop(h),
{
    let set = after_mouth_set(h, current, movement_direction(m), m.speed);
    mouth_set_is_guarded(h, current, movement_direction(m), m.speed);
    mouth_stop_rests(set);
    lemma_then_wait(
        h,
        mouth_set_plan(h, current, movement_direction(m), m.speed),
        m.duration_ms,
        mouth_stop_plan(set),
    );
}

/// A sequence of movements never drives the mouth's pins while it has duty,
/// and leaves the mouth at rest unless there was nothing to do.
pub proof fn sequence_is_guarded(h: Hardware, current: MouthDirection, ms: Seq<MouthMovement>)
    ensures
        all_guarded(h, sequence_plan(h, current, ms)),
        ms.len() == 0 ==> run(h, sequence_plan(h, current, ms)) == h,
        ms.len() > 0 ==> run(h, sequence_plan(h, current, ms)) == after_mouth_stop(h),
    decreases ms.len(),
{
    if ms.len() > 0 {
        let first = movement_plan(h, current, ms[0]);
        let rest = sequence_plan(after_mouth_stop(h), movement_direction(ms[0]), ms.drop_first());
        movement_is_guarded(h, current, ms[0]);
        sequence_is_guarded(after_mouth_stop(h), movement_direction(ms[0]), ms.drop_first());
        plans_compose(h, first, rest);
    }
}

/// Mouth settings applied one after another, in any order of directions.
pub open spec fn mouth_set_sequence_plan(
    h: Hardware,
    current: MouthDirection,
    requests: Seq<(MouthDirection, u8)>,
) -> Seq<Action>
    decreases requests.len(),
{
    if requests.len() == 0 {
        Seq::empty()
    } else {
        mouth_set_plan(h, current, requests[0].0, requests[0].1) + mouth_set_sequence_plan(
            after_mouth_set(h, current, requests[0].0, requests[0].1),
            requests[0].0,
            requests.drop_first(),
        )
    }
}

/// However mouth settings with differing directions follow one another, the
/// mouth's pins are never driven while it has duty.
pub proof fn mouth_set_sequence_is_guarded(
    h: Hardware,
    current: MouthDirection,
    requests: Seq<(MouthDirection, u8)>,
)
    ensures
        all_guarded(h, mouth_set_sequence_plan(h, current, requests)),
    decreases requests.len(),
{
    if requests.len() > 0 {
        let (d, speed) = requests[0];
        mouth_set_is_guarded(h, current, d, speed);
        mouth_set_sequence_is_guarded(
            after_mouth_set(h, current, d, speed),
            d,
            requests.drop_first(),
        );
        plans_compose(
            h,
            mouth_set_plan(h, current, d, speed),
            mouth_set_sequence_plan(after_mouth_set(h, current, d, speed), d, requests.drop_first()),
        );
    }
}

/// The head's hold ramp ends at full duty with its pins driven one way and
/// the mouth untouched.
pub proof fn head_hold_lifts(h: Hardware)
    ensures
        all_guarded(h, head_hold_plan()),
        run(h, head_hold_plan()) == (Hardware {
            head: MotorState { duty: DUTY_MAX, pin_a: true, pin_b: false },
            mouth: h.mouth,
        }),
{
    let pins = Action::Pins(Motor::Head, true, false);
    let zero = Action::Duty(Motor::Head, DutyWrite { duty: 0, wait_ms: HEAD_DELAY_MS });
    lemma_run_push(h, Seq::empty(), pins);
    assert(Seq::<Action>::empty().push(pins) =~= seq![pins]);
    lemma_run_push(h, seq![pins], zero);
    assert(seq![pins].push(zero) =~= seq![pins, zero]);
    let lifted = run(h, seq![pins, zero]);
    let w = ramp_writes(0, DUTY_MAX as int, HEAD_STEP as int, HEAD_DELAY_MS, HEAD_DELAY_MS);
    crate::ramp::ramp_converges(0, DUTY_MAX, HEAD_STEP, HEAD_DELAY_MS, HEAD_DELAY_MS);
    lemma_run_duties(lifted, Motor::Head, w);
    plans_compose(h, seq![pins, zero], duty_actions(Motor::Head, w));
}

/// The head's slowed stop always comes to rest at zero duty, from any
/// starting duty, and touches neither its pins nor the mouth.
pub proof fn head_slowed_stop_rests(h: Hardware)
    ensures
        all_guarded(h, head_stop_plan(h)),
        run(h, head_stop_plan(h)) == (Hardware {
            head: MotorState { duty: 0, pin_a: h.head.pin_a, pin_b: h.head.pin_b },
            mouth: h.mouth,
        }),
{
    let w = decay_writes(
        h.head.duty as int,
        HEAD_DECAY_NUM as int,
        HEAD_DECAY_DEN as int,
        HEAD_DECAY_DELAY_MS,
    );
    crate::ramp::decay_reaches_rest(h.head.duty, HEAD_DECAY_NUM, HEAD_DECAY_DEN, HEAD_DECAY_DELAY_MS);
    lemma_run_duties(h, Motor::Head, w);
}

} // verus!
