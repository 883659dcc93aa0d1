use billy_bass::ramp::{decay, descend, ramp, DutyWrite};

fn duties(writes: &[DutyWrite]) -> Vec<u32> {
    writes.iter().map(|w| w.duty).collect()
}

#[test]
fn ramp_up_clamps_last_step_to_target() {
    let w = ramp(0, 20, 8, 3, 2);
    assert_eq!(duties(&w), vec![8, 16, 20]);
    assert!(w.iter().all(|x| x.wait_ms == 3));
}

#[test]
fn ramp_up_exact_multiple() {
    let w = ramp(10, 26, 8, 3, 2);
    assert_eq!(duties(&w), vec![18, 26]);
}

#[test]
fn ramp_down_steps_from_below_current_then_lands_on_target() {
    let w = ramp(20, 3, 8, 3, 2);
    assert_eq!(duties(&w), vec![19, 11, 3, 3]);
    assert_eq!(w[0].wait_ms, 2);
    assert_eq!(w[3], DutyWrite { duty: 3, wait_ms: 0 });
}

#[test]
fn ramp_down_to_zero() {
    let w = ramp(17, 0, 8, 3, 2);
    assert_eq!(duties(&w), vec![16, 8, 0, 0]);
}

#[test]
fn ramp_in_place_writes_nothing() {
    for c in [0u32, 1, 128, 255] {
        assert!(ramp(c, c, 8, 3, 2).is_empty());
        assert!(ramp(c, c, 1, 0, 0).is_empty());
    }
}

#[test]
fn ramp_always_ends_on_target_within_bound() {
    for c in (0u32..=255).step_by(7) {
        for t in (0u32..=255).step_by(11) {
            for step in [1u32, 8, 16, 300] {
                let w = ramp(c, t, step, 3, 2);
                if c == t {
                    assert!(w.is_empty());
                    continue;
                }
                let gap = if c < t { t - c } else { c - t };
                assert!(!w.is_empty() && w.len() as u32 <= gap + 1);
                let expected = if t > c { (t - c + step - 1) / step } else { (c - 1 - t) / step + 2 };
                assert_eq!(w.len() as u32, expected);
                assert_eq!(w.last().unwrap().duty, t);
                let (lo, hi) = if c < t { (c, t) } else { (t, c) };
                assert!(w.iter().all(|x| lo <= x.duty && x.duty <= hi));
            }
        }
    }
}

#[test]
fn head_style_ramp_takes_ceil_steps() {
    assert_eq!(ramp(0, 255, 16, 5, 5).len(), 16);
    assert_eq!(ramp(0, 255, 8, 5, 5).len(), 32);
    assert_eq!(ramp(0, 255, 255, 5, 5).len(), 1);
}

#[test]
fn ramp_up_by_one_to_max() {
    let w = ramp(0, 255, 1, 1, 1);
    assert_eq!(w.len(), 255);
    assert_eq!(w[254].duty, 255);
}

#[test]
fn descend_from_equal_values_is_empty() {
    assert!(descend(0, 0, 8, 2).is_empty());
    assert!(descend(9, 9, 8, 2).is_empty());
}

#[test]
fn decay_from_full_duty_exact_values() {
    let w = decay(255, 19, 20, 50);
    assert_eq!(w.len(), 62);
    assert_eq!(&duties(&w)[..5], &[242, 229, 217, 206, 195]);
    assert_eq!(w.last().unwrap().duty, 0);
    assert!(w.iter().all(|x| x.wait_ms == 50));
}

#[test]
fn decay_from_zero_writes_nothing() {
    assert!(decay(0, 19, 20, 50).is_empty());
}

#[test]
fn decay_reaches_zero_for_any_factor() {
    for duty in 0u32..=255 {
        for (num, den) in [(1u32, 2u32), (19, 20), (99, 100), (1, 1000)] {
            let w = decay(duty, num, den, 1);
            if duty == 0 {
                assert!(w.is_empty());
            } else {
                assert_eq!(w.last().unwrap().duty, 0);
                assert!(w.iter().all(|x| x.duty < duty));
            }
        }
    }
}
