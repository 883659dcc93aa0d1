use billy_bass::bass::{BillyBass, MouthDirection};
use billy_bass::diagnostics::MouthOp;
use billy_bass::hardware::{Action, Hardware, Motor, MotorState};
use billy_bass::ramp::DutyWrite;

const IDLE: MotorState = MotorState { duty: 0, pin_a: false, pin_b: false };

/// Performs a plan on a recorded hardware state, checking that the mouth's
/// pins are only driven at zero duty.
fn perform(h: &mut Hardware, plan: &[Action]) {
    for a in plan {
        match *a {
            Action::Duty(Motor::Head, w) => h.head.duty = w.duty,
            Action::Duty(Motor::Mouth, w) => h.mouth.duty = w.duty,
            Action::Pins(Motor::Head, a, b) => {
                h.head.pin_a = a;
                h.head.pin_b = b;
            }
            Action::Pins(Motor::Mouth, a, b) => {
                assert_eq!(h.mouth.duty, 0, "mouth pins driven while it has duty");
                h.mouth.pin_a = a;
                h.mouth.pin_b = b;
            }
            Action::Wait(_) => {}
        }
    }
}

#[test]
fn new_is_at_rest_and_opening() {
    let b = BillyBass::new();
    assert_eq!(b.state(), Hardware { head: IDLE, mouth: IDLE });
    assert_eq!(b.current_mouth_direction(), MouthDirection::Opening);
    assert_eq!(BillyBass::default().state(), b.state());
}

#[test]
fn mouth_open_in_current_direction_only_ramps() {
    let mut b = BillyBass::new();
    let plan = b.mouth_open(20);
    assert_eq!(
        plan,
        vec![
            Action::Duty(Motor::Mouth, DutyWrite { duty: 8, wait_ms: 3 }),
            Action::Duty(Motor::Mouth, DutyWrite { duty: 16, wait_ms: 3 }),
            Action::Duty(Motor::Mouth, DutyWrite { duty: 20, wait_ms: 3 }),
        ]
    );
    assert_eq!(b.state().mouth.duty, 20);
}

#[test]
fn reversing_a_driven_mouth_cuts_duty_before_pins() {
    let mut b = BillyBass::new();
    b.mouth_open(100);
    let plan = b.mouth_close(10);
    assert_eq!(plan[0], Action::Duty(Motor::Mouth, DutyWrite { duty: 0, wait_ms: 20 }));
    assert_eq!(plan[1], Action::Pins(Motor::Mouth, true, false));
    assert_eq!(plan[2], Action::Duty(Motor::Mouth, DutyWrite { duty: 8, wait_ms: 3 }));
    assert_eq!(plan.len(), 4);
    assert_eq!(b.current_mouth_direction(), MouthDirection::Closing);
    assert_eq!(b.state().mouth, MotorState { duty: 10, pin_a: true, pin_b: false });
}

#[test]
fn reversing_a_still_mouth_drives_pins_at_once() {
    let mut b = BillyBass::new();
    let plan = b.mouth_close(0);
    assert_eq!(plan, vec![Action::Pins(Motor::Mouth, true, false)]);
    let plan = b.mouth_open(0);
    assert_eq!(plan, vec![Action::Pins(Motor::Mouth, false, true)]);
}

#[test]
fn mouth_set_same_speed_is_idle() {
    let mut b = BillyBass::new();
    b.mouth_open(40);
    assert!(b.mouth_set(MouthDirection::Opening, 40).is_empty());
}

#[test]
fn interleaved_mouth_sets_never_reverse_under_duty() {
    let mut b = BillyBass::new();
    let mut h = b.state();
    let mut seed: u32 = 12345;
    for _ in 0..300 {
        seed = seed.wrapping_mul(1103515245).wrapping_add(12345);
        let dir = if (seed >> 16) & 1 == 0 { MouthDirection::Opening } else { MouthDirection::Closing };
        let speed = ((seed >> 8) & 0xff) as u8;
        let plan = b.mouth_set(dir, speed);
        perform(&mut h, &plan);
        assert_eq!(h, b.state());
        assert_eq!(h.mouth.duty, speed as u32);
    }
}

#[test]
fn mouth_stop_rests_from_any_duty_and_direction() {
    for speed in [0u8, 1, 7, 8, 9, 180, 255] {
        for dir in [MouthDirection::Opening, MouthDirection::Closing] {
            let mut b = BillyBass::new();
            b.mouth_set(dir, speed);
            let mut h = b.state();
            let plan = b.mouth_stop();
            perform(&mut h, &plan);
            assert_eq!(h.mouth, IDLE);
            assert_eq!(b.state().mouth, IDLE);
            assert_eq!(b.current_mouth_direction(), dir);
            let n = plan.len();
            assert_eq!(plan[n - 2], Action::Duty(Motor::Mouth, DutyWrite { duty: 0, wait_ms: 5 }));
            assert_eq!(plan[n - 1], Action::Pins(Motor::Mouth, false, false));
        }
    }
}

#[test]
fn mouth_stop_ramp_values() {
    let mut b = BillyBass::new();
    b.mouth_open(20);
    let plan = b.mouth_stop();
    assert_eq!(
        plan,
        vec![
            Action::Duty(Motor::Mouth, DutyWrite { duty: 19, wait_ms: 2 }),
            Action::Duty(Motor::Mouth, DutyWrite { duty: 11, wait_ms: 2 }),
            Action::Duty(Motor::Mouth, DutyWrite { duty: 3, wait_ms: 2 }),
            Action::Duty(Motor::Mouth, DutyWrite { duty: 0, wait_ms: 5 }),
            Action::Pins(Motor::Mouth, false, false),
        ]
    );
}

#[test]
fn speak_syllable_opens_closes_and_stops() {
    let mut b = BillyBass::new();
    let mut h = b.state();
    let plan = b.speak_syllable(180, 200, 100, 50);
    perform(&mut h, &plan);
    assert_eq!(h.mouth, IDLE);
    assert_eq!(b.current_mouth_direction(), MouthDirection::Closing);
    let open_wait = plan.iter().position(|a| *a == Action::Wait(100)).unwrap();
    let close_wait = plan.iter().position(|a| *a == Action::Wait(50)).unwrap();
    assert!(open_wait < close_wait);
    assert_eq!(plan[open_wait - 1], Action::Duty(Motor::Mouth, DutyWrite { duty: 180, wait_ms: 3 }));
    assert_eq!(plan[close_wait - 1], Action::Duty(Motor::Mouth, DutyWrite { duty: 200, wait_ms: 3 }));
}

#[test]
fn head_hold_soft_ramps_to_full() {
    let mut b = BillyBass::new();
    let plan = b.head_hold_soft();
    assert_eq!(plan[0], Action::Pins(Motor::Head, true, false));
    assert_eq!(plan.len(), 18);
    assert_eq!(plan[1], Action::Duty(Motor::Head, DutyWrite { duty: 0, wait_ms: 5 }));
    assert_eq!(plan[2], Action::Duty(Motor::Head, DutyWrite { duty: 16, wait_ms: 5 }));
    assert_eq!(plan[17], Action::Duty(Motor::Head, DutyWrite { duty: 255, wait_ms: 5 }));
    assert_eq!(b.state().head, MotorState { duty: 255, pin_a: true, pin_b: false });
    assert_eq!(b.state().mouth, IDLE);
}

#[test]
fn head_hold_soft_again_passes_through_zero() {
    let mut b = BillyBass::new();
    b.head_hold_soft();
    let plan = b.head_hold_soft();
    assert_eq!(plan[1], Action::Duty(Motor::Head, DutyWrite { duty: 0, wait_ms: 5 }));
    let duties: Vec<u32> = plan[1..]
        .iter()
        .map(|a| match a {
            Action::Duty(Motor::Head, w) => w.duty,
            _ => panic!("unexpected action"),
        })
        .collect();
    assert!(duties.windows(2).all(|p| p[0] < p[1] && p[1] - p[0] <= 16));
}

#[test]
fn head_slowed_stop_comes_to_rest() {
    let mut b = BillyBass::new();
    b.head_hold_soft();
    let plan = b.head_slowed_stop();
    assert_eq!(plan.len(), 62);
    assert_eq!(plan[0], Action::Duty(Motor::Head, DutyWrite { duty: 242, wait_ms: 50 }));
    assert_eq!(plan[61], Action::Duty(Motor::Head, DutyWrite { duty: 0, wait_ms: 50 }));
    assert_eq!(b.state().head.duty, 0);
    assert!(b.head_slowed_stop().is_empty());
}

#[test]
fn articulation_routine_is_safe_and_ends_closed_mouth() {
    let mut b = BillyBass::new();
    let mut h = b.state();
    let plan = b.test_mouth_articulation();
    perform(&mut h, &plan);
    assert_eq!(h, b.state());
    assert_eq!(h.mouth.duty, 0);
    assert_eq!(b.current_mouth_direction(), MouthDirection::Opening);
    assert_eq!(plan.iter().filter(|a| **a == Action::Wait(500)).count(), 5);
    assert_eq!(plan.iter().filter(|a| **a == Action::Wait(10)).count(), 104);
}

#[test]
fn active_closing_routine_is_safe_and_rests() {
    let mut b = BillyBass::new();
    let mut h = b.state();
    let plan = b.test_active_closing();
    perform(&mut h, &plan);
    assert_eq!(h, b.state());
    assert_eq!(h.mouth, IDLE);
    assert_eq!(b.current_mouth_direction(), MouthDirection::Closing);
    assert_eq!(plan.iter().filter(|a| **a == Action::Wait(1000)).count(), 12);
    assert_eq!(plan.iter().filter(|a| **a == Action::Pins(Motor::Mouth, false, false)).count(), 3 * 4 * 4 * 3 + 5);
}

#[test]
fn articulation_from_opening_writes_only_neutral_mouth_pins() {
    let mut b = BillyBass::new();
    let plan = b.test_mouth_articulation();
    assert!(plan.iter().all(|a| match a {
        Action::Pins(Motor::Mouth, x, y) => !*x && !*y,
        _ => true,
    }));
}

#[test]
fn active_closing_reversals_cut_duty_and_settle_first() {
    let mut b = BillyBass::new();
    let mut h = b.state();
    let plan = b.test_active_closing();
    let mut reversals = 0;
    for (i, a) in plan.iter().enumerate() {
        if let Action::Pins(Motor::Mouth, x, y) = a {
            if *x != *y {
                reversals += 1;
                if i > 0 {
                    if let Action::Duty(Motor::Mouth, w) = plan[i - 1] {
                        assert_eq!(w, DutyWrite { duty: 0, wait_ms: 20 });
                    }
                }
            }
        }
    }
    assert!(reversals > 0);
    perform(&mut h, &plan);
}

#[test]
fn run_script_drives_each_speed_exactly() {
    let mut b = BillyBass::new();
    let ops = vec![
        MouthOp::Drive(MouthDirection::Opening, 37),
        MouthOp::Wait(4),
        MouthOp::Drive(MouthDirection::Closing, 200),
        MouthOp::Stop,
    ];
    let mut h = b.state();
    let plan = b.run_script(&ops);
    perform(&mut h, &plan);
    assert_eq!(h, b.state());
    assert_eq!(h.mouth, IDLE);
    assert_eq!(b.current_mouth_direction(), MouthDirection::Closing);
    let mut c = BillyBass::new();
    let mut expected = c.mouth_set(MouthDirection::Opening, 37);
    expected.push(Action::Wait(4));
    expected.extend(c.mouth_set(MouthDirection::Closing, 200));
    expected.extend(c.mouth_stop());
    assert_eq!(plan, expected);
}
