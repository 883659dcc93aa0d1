//! The hardware as the library sees it: two motors, each with a PWM duty and
//! a pair of direction pins, and the actions that change them.
use crate::ramp::DutyWrite;
use vstd::prelude::*;

verus! {

/// The highest duty that the 8-bit PWM accepts.
pub const DUTY_MAX: u32 = 255;

#[derive(Clone, Copy, Debug, PartialEq, Eq, Structural)]
pub enum Motor {
    Head,
    Mouth,
}

/// One step of a plan, performed on the hardware in order.
#[derive(Clone, Copy, Debug, PartialEq, Eq, Structural)]
pub enum Action {
    /// Write a motor's PWM duty, then pause.
    Duty(Motor, DutyWrite),
    /// Drive a motor's two direction pins to the given levels.
    Pins(Motor, bool, bool),
    /// Pause for the given number of milliseconds.
    Wait(u32),
}

/// What a motor is driven with: its duty and its two direction pins.
#[derive(Clone, Copy, Debug, PartialEq, Eq, Structural)]
pub struct MotorState {
    pub duty: u32,
    pub pin_a: bool,
    pub pin_b: bool,
}

#[derive(Clone, Copy, Debug, PartialEq, Eq, Structural)]
pub struct Hardware {
    pub head: MotorState,
    pub mouth: MotorState,
}

/// A motor at rest: no duty, both direction pins low.
pub open spec fn idle() -> MotorState {
    MotorState { duty: 0, pin_a: false, pin_b: false }
}

pub open spec fn motor_state(h: Hardware, m: Motor) -> MotorState {
    match m {
        Motor::Head => h.head,
        Motor::Mouth => h.mouth,
    }
}

pub open spec fn with_motor(h: Hardware, m: Motor, s: MotorState) -> Hardware {
    match m {
        Motor::Head => Hardware { head: s, mouth: h.mouth },
        Motor::Mouth => Hardware { head: h.head, mouth: s },
    }
}

pub open spec fn with_duty(h: Hardware, m: Motor, duty: u32) -> Hardware {
    let s = motor_state(h, m);
    with_motor(h, m, MotorState { duty, pin_a: s.pin_a, pin_b: s.pin_b })
}

/// The hardware after one action.
pub open spec fn apply(h: Hardware, a: Action) -> Hardware {
    match a {
        Action::Duty(m, w) => with_duty(h, m, w.duty),
        Action::Pins(m, pin_a, pin_b) => with_motor(
            h,
            m,
            MotorState { duty: motor_state(h, m).duty, pin_a, pin_b },
        ),
        Action::Wait(_) => h,
    }
}

/// The hardware after a plan.
pub open spec fn run(h: Hardware, plan: Seq<Action>) -> Hardware
    decreases plan.len(),
{
    if plan.len() == 0 {
        h
    } else {
        apply(run(h, plan.drop_last()), plan.last())
    }
}

/// The mouth's direction pins may only be driven while its duty is zero.
pub open spec fn guarded(h: Hardware, a: Action) -> bool {
    a matches Action::Pins(Motor::Mouth, _, _) ==> h.mouth.duty == 0
}

/// Every action of the plan is guarded in the state that it meets.
pub open spec fn all_guarded(h: Hardware, plan: Seq<Action>) -> bool
    decreases plan.len(),
{
    plan.len() == 0 || (all_guarded(h, plan.drop_last()) && guarded(
        run(h, plan.drop_last()),
        plan.last(),
    ))
}

/// The duty actions that perform a sequence of writes on one motor.
pub open spec fn duty_actions(m: Motor, writes: Seq<DutyWrite>) -> Seq<Action> {
    writes.map_values(|w: DutyWrite| Action::Duty(m, w))
}

pub proof fn lemma_run_push(h: Hardware, plan: Seq<Action>, a: Action)
    ensures
        run(h, plan.push(a)) == apply(run(h, plan), a),
        all_guarded(h, plan.push(a)) == (all_guarded(h, plan) && guarded(run(h, plan), a)),
{
    assert(plan.push(a).drop_last() =~= plan);
}

/// Running two plans one after the other is running their concatenation,
/// and the concatenation is guarded exactly when each part is guarded in
/// the state in which it starts.
pub proof fn plans_compose(h: Hardware, first: Seq<Action>, second: Seq<Action>)
    ensures
        run(h, first + second) == run(run(h, first), second),
        all_guarded(h, first + second) == (all_guarded(h, first) && all_guarded(
            run(h, first),
            second,
        )),
    decreases second.len(),
{
    if second.len() == 0 {
        assert(first + second =~= first);
    } else {
        plans_compose(h, first, second.drop_last());
        assert((first + second).drop_last() =~= first + second.drop_last());
        assert((first + second).last() == second.last());
    }
}

/// Duty writes on one motor leave its pins and the other motor alone, end on
/// the last write, and never drive a pin.
pub proof fn lemma_run_duties(h: Hardware, m: Motor, writes: Seq<DutyWrite>)
    ensures
        all_guarded(h, duty_actions(m, writes)),
        writes.len() == 0 ==> run(h, duty_actions(m, writes)) == h,
        writes.len() > 0 ==> run(h, duty_actions(m, writes)) == with_duty(h, m, writes.last().duty),
    decreases writes.len(),
{
    let plan = duty_actions(m, writes);
    if writes.len() > 0 {
        lemma_run_duties(h, m, writes.drop_last());
        assert(plan.drop_last() =~= duty_actions(m, writes.drop_last()));
        assert(plan.last() == Action::Duty(m, writes.last()));
    }
}

/// Appends the duty actions of `writes` on motor `m` to a plan.
pub fn push_duties(plan: &mut Vec<Action>, m: Motor, writes: &Vec<DutyWrite>)
    ensures
        final(plan)@ == old(plan)@ + duty_actions(m, writes@),
{
    let ghost start = plan@;
    let mut i: usize = 0;
    while i < writes.len()
        invariant
            i <= writes.len(),
            plan@ == start + duty_actions(m, writes@.take(i as int)),
        decreases writes.len() - i,
    {
        proof {
            assert(duty_actions(m, writes@.take(i + 1)) =~= duty_actions(m, writes@.take(i as int)).push(
                Action::Duty(m, writes@[i as int]),
            ));
        }
        plan.push(Action::Duty(m, writes[i]));
        i = i + 1;
    }
    assert(writes@.take(i as int) =~= writes@);
}

} // verus!
