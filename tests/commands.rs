use billy_bass::bass::{BillyBass, MouthDirection};
use billy_bass::command::{BillyBassCommand, CommandError, MouthMovement, RawMovement};
use billy_bass::guard::Controller;
use billy_bass::hardware::{Action, Motor, MotorState};
use billy_bass::ramp::DutyWrite;

const IDLE: MotorState = MotorState { duty: 0, pin_a: false, pin_b: false };

fn movement(is_opening: bool, speed: u8, duration_ms: u32) -> MouthMovement {
    MouthMovement { start_time_ms: 0, is_opening, speed, duration_ms }
}

fn command(movements: Vec<MouthMovement>) -> BillyBassCommand {
    BillyBassCommand { audio: String::new(), audio_format: "wav".to_string(), mouth_movements: movements }
}

fn total_wait(plan: &[Action]) -> u64 {
    plan.iter()
        .map(|a| match a {
            Action::Duty(_, w) => w.wait_ms as u64,
            Action::Wait(ms) => *ms as u64,
            Action::Pins(..) => 0,
        })
        .sum()
}

#[test]
fn open_then_close_command_runs_in_order() {
    let mut b = BillyBass::new();
    let plan = b.execute(&vec![movement(true, 180, 100), movement(false, 200, 50)]);
    let first_hold = plan.iter().position(|a| *a == Action::Wait(100)).unwrap();
    let second_hold = plan.iter().position(|a| *a == Action::Wait(50)).unwrap();
    let closing_pins = plan.iter().position(|a| *a == Action::Pins(Motor::Mouth, true, false)).unwrap();
    assert!(first_hold < closing_pins && closing_pins < second_hold);
    assert_eq!(plan[first_hold - 1], Action::Duty(Motor::Mouth, DutyWrite { duty: 180, wait_ms: 3 }));
    assert_eq!(plan[second_hold - 1], Action::Duty(Motor::Mouth, DutyWrite { duty: 200, wait_ms: 3 }));
    assert_eq!(*plan.last().unwrap(), Action::Pins(Motor::Mouth, false, false));
    assert_eq!(b.state().mouth, IDLE);
    assert_eq!(b.current_mouth_direction(), MouthDirection::Closing);
    assert!(total_wait(&plan) > 150);
    // Rising to 180 and 200 in steps of 8 pauses 23 and 25 times for 3 ms;
    // the stops step down 23 and 25 times for 2 ms and hold 5 ms each.
    assert_eq!(total_wait(&plan), 150 + (23 + 25) * 3 + (23 + 25) * 2 + 2 * 5);
}

#[test]
fn empty_command_does_nothing() {
    let mut b = BillyBass::new();
    b.mouth_open(30);
    let before = b.state();
    assert!(b.execute(&Vec::new()).is_empty());
    assert_eq!(b.state(), before);
}

#[test]
fn movements_chain_back_to_back_ignoring_start_offsets() {
    let mut a = BillyBass::new();
    let mut b = BillyBass::new();
    let late = MouthMovement { start_time_ms: 5000, is_opening: true, speed: 50, duration_ms: 10 };
    let p1 = a.execute(&vec![late]);
    let p2 = b.execute(&vec![movement(true, 50, 10)]);
    assert_eq!(p1, p2);
}

#[test]
fn second_command_while_busy_is_rejected() {
    let mut c = Controller::new();
    let first = command(vec![movement(true, 180, 100)]);
    let second = command(vec![movement(false, 200, 50)]);
    let mut log: Vec<Action> = Vec::new();
    let plan = c.begin(&first).unwrap();
    assert!(c.is_busy());
    assert_eq!(c.begin(&second), Err(CommandError::Busy));
    log.extend(plan.iter().copied());
    let (stop, outcome) = c.complete(false);
    assert!(stop.is_empty());
    assert_eq!(outcome, Ok(()));
    assert!(!c.is_busy());
    let plan2 = c.begin(&second).unwrap();
    log.extend(plan2.iter().copied());
    c.complete(false);
    let n = plan.len();
    assert_eq!(&log[..n], &plan[..]);
    assert_eq!(&log[n..], &plan2[..]);
}

#[test]
fn failed_write_stops_mouth_and_reports() {
    let mut c = Controller::new();
    c.begin(&command(vec![movement(true, 90, 20)])).unwrap();
    let (stop, outcome) = c.complete(true);
    assert_eq!(outcome, Err(CommandError::HardwareWrite));
    assert_eq!(
        stop,
        vec![
            Action::Duty(Motor::Mouth, DutyWrite { duty: 0, wait_ms: 5 }),
            Action::Pins(Motor::Mouth, false, false),
        ]
    );
    assert!(!c.is_busy());
    assert_eq!(c.motors().state().mouth, IDLE);
    assert!(c.begin(&command(vec![movement(false, 10, 1)])).is_ok());
}

#[test]
fn speed_bounds_are_checked_at_the_boundary() {
    assert_eq!(MouthMovement::from_wire(7, true, 255, 10), Ok(MouthMovement { start_time_ms: 7, is_opening: true, speed: 255, duration_ms: 10 }));
    assert_eq!(MouthMovement::from_wire(0, false, 0, 0), Ok(movement(false, 0, 0)));
    assert_eq!(MouthMovement::from_wire(0, true, 256, 10), Err(CommandError::Validation));
    assert_eq!(MouthMovement::from_wire(0, true, u32::MAX, 10), Err(CommandError::Validation));
}

#[test]
fn boundary_speeds_drive_the_mouth() {
    let mut b = BillyBass::new();
    let plan = b.execute(&vec![movement(true, 255, 1), movement(true, 0, 1)]);
    assert!(plan.contains(&Action::Duty(Motor::Mouth, DutyWrite { duty: 255, wait_ms: 3 })));
    assert_eq!(b.state().mouth, IDLE);
}

fn raw(speed: u32) -> RawMovement {
    RawMovement { start_time_ms: 10, is_opening: speed % 2 == 0, speed, duration_ms: 20 }
}

#[test]
fn whole_command_rejected_when_any_speed_is_too_high() {
    let r = BillyBassCommand::from_wire("a".to_string(), "wav".to_string(), &vec![raw(0), raw(256), raw(255)]);
    assert_eq!(r.err(), Some(CommandError::Validation));
}

#[test]
fn whole_command_kept_in_order_when_speeds_fit() {
    let c = BillyBassCommand::from_wire("a".to_string(), "wav".to_string(), &vec![raw(255), raw(0), raw(7)]).unwrap();
    assert_eq!(c.audio, "a");
    assert_eq!(c.audio_format, "wav");
    let speeds: Vec<u8> = c.mouth_movements.iter().map(|m| m.speed).collect();
    assert_eq!(speeds, vec![255, 0, 7]);
    assert_eq!(c.mouth_movements[1], MouthMovement { start_time_ms: 10, is_opening: true, speed: 0, duration_ms: 20 });
}

#[test]
fn controller_keeps_the_motors_it_is_given() {
    let mut b = BillyBass::new();
    b.mouth_close(90);
    b.mouth_stop();
    let mut c = Controller::with_motors(b);
    assert!(!c.is_busy());
    assert_eq!(c.motors().current_mouth_direction(), MouthDirection::Closing);
    let plan = c.begin(&command(vec![movement(true, 40, 5)])).unwrap();
    assert_eq!(plan[0], Action::Pins(Motor::Mouth, false, true));
}
