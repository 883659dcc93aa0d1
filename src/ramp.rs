//! The duty ramp engine: step-wise transitions of a PWM duty value.
use vstd::prelude::*;

verus! {

/// One PWM duty write, followed by a pause before the next hardware action.
#[derive(Clone, Copy, Debug, PartialEq, Eq, Structural)]
pub struct DutyWrite {
    pub duty: u32,
    pub wait_ms: u32,
}

pub open spec fn write_of(duty: int, wait_ms: u32) -> DutyWrite {
    DutyWrite { duty: duty as u32, wait_ms }
}

/// The writes of an upward ramp that starts above `from`: each is `step`
/// higher than the one before, the last one clamped to `target`.
pub open spec fn rise(from: int, target: int, step: int, wait_ms: u32) -> Seq<DutyWrite>
    decreases target - from,
{
    if step <= 0 || from >= target {
        Seq::empty()
    } else {
        let next = if from + step >= target {
            target
        } else {
            from + step
        };
        seq![write_of(next, wait_ms)] + rise(next, target, step, wait_ms)
    }
}

/// The writes `from`, `from - step`, `from - 2 * step`, ... that are not below `target`.
pub open spec fn fall(from: int, target: int, step: int, wait_ms: u32) -> Seq<DutyWrite>
    decreases from + step - target,
{
    if step <= 0 || from < target {
        Seq::empty()
    } else {
        seq![write_of(from, wait_ms)] + fall(from - step, target, step, wait_ms)
    }
}

/// The writes that move a duty from `current` to `target`. Going up, every
/// write waits `delay_up_ms`. Going down, the values step from `target` up
/// to but excluding `current`, taken in reverse, each waiting
/// `delay_down_ms`, and a last write of `target` lands exactly on it.
/// Equal values give no write at all.
pub open spec fn ramp_writes(
    current: int,
    target: int,
    step: int,
    delay_up_ms: u32,
    delay_down_ms: u32,
) -> Seq<DutyWrite> {
    if target > current {
        rise(current, target, step, delay_up_ms)
    } else if target < current {
        fall(current - 1, target, step, delay_down_ms).push(write_of(target, 0))
    } else {
        Seq::empty()
    }
}

/// Plans the writes that step down from just below `current` to `target`,
/// excluding the exact landing on `target`.
pub fn descend(current: u32, target: u32, step: u32, wait_ms: u32) -> (writes: Vec<DutyWrite>)
    requires
        step >= 1,
        target <= current,
    ensures
        writes@ == fall(current - 1, target as int, step as int, wait_ms),
{
    let mut writes: Vec<DutyWrite> = Vec::new();
    if target == current {
        return writes;
    }
    let mut duty: u32 = current - 1;
    while duty - target >= step
        invariant
            target <= duty < current,
            step >= 1,
            writes@ + fall(duty as int, target as int, step as int, wait_ms) == fall(
                current - 1,
                target as int,
                step as int,
                wait_ms,
            ),
        decreases duty - target,
    {
        let w = DutyWrite { duty, wait_ms };
        proof {
            let tail = fall(duty - step, target as int, step as int, wait_ms);
            assert(fall(duty as int, target as int, step as int, wait_ms) == seq![w] + tail);
            assert(writes@.push(w) + tail =~= writes@ + (seq![w] + tail));
        }
        writes.push(w);
        duty = duty - step;
    }
    let w = DutyWrite { duty, wait_ms };
    proof {
        let tail = fall(duty - step, target as int, step as int, wait_ms);
        assert(tail == Seq::<DutyWrite>::empty());
        assert(fall(duty as int, target as int, step as int, wait_ms) == seq![w] + tail);
        assert(writes@.push(w) =~= writes@ + (seq![w] + tail));
    }
    writes.push(w);
    writes
}

/// Plans the duty writes that take a motor from `current` to `target`.
pub fn ramp(current: u32, target: u32, step: u32, delay_up_ms: u32, delay_down_ms: u32) -> (writes:
    Vec<DutyWrite>)
    requires
        step >= 1,
    ensures
        writes@ == ramp_writes(
            current as int,
            target as int,
            step as int,
            delay_up_ms,
            delay_down_ms,
        ),
{
    let mut writes: Vec<DutyWrite> = Vec::new();
    if target > current {
        let mut duty: u32 = current;
        while duty < target
            invariant
                current <= duty <= target,
                step >= 1,
                writes@ + rise(duty as int, target as int, step as int, delay_up_ms) == rise(
                    current as int,
                    target as int,
                    step as int,
                    delay_up_ms,
                ),
            decreases target - duty,
        {
            let next: u32 = if target - duty <= step {
                target
            } else {
                duty + step
            };
            let w = DutyWrite { duty: next, wait_ms: delay_up_ms };
            proof {
                let tail = rise(next as int, target as int, step as int, delay_up_ms);
                assert(rise(duty as int, target as int, step as int, delay_up_ms) == seq![w]
                    + tail);
                assert(writes@.push(w) + tail =~= writes@ + (seq![w] + tail));
            }
            writes.push(w);
            duty = next;
        }
        assert(writes@ + rise(duty as int, target as int, step as int, delay_up_ms) =~= writes@);
    } else if target < current {
        writes = descend(current, target, step, delay_down_ms);
        writes.push(DutyWrite { duty: target, wait_ms: 0 });
    }
    writes
}


/// The distance between two duty values.
pub open spec fn gap(a: int, b: int) -> int {
    if a <= b {
        b - a
    } else {
        a - b
    }
}

proof fn lemma_rise(from: int, target: int, step: int, wait_ms: u32)
    requires
        1 <= step,
        0 <= from < target <= u32::MAX,
    ensures
        ({
            let r = rise(from, target, step, wait_ms);
            &&& 1 <= r.len() <= target - from
            &&& r.last().duty == target
            &&& forall|i: int| 0 <= i < r.len() ==> from < #[trigger] r[i].duty <= target
            &&& r[0].duty <= from + step
            &&& forall|i: int|
                0 <= i < r.len() - 1 ==> #[trigger] r[i].duty < r[i + 1].duty <= r[i].duty + step
        }),
    decreases target - from,
{
    let next = if from + step >= target {
        target
    } else {
        from + step
    };
    let r = rise(from, target, step, wait_ms);
    let tail = rise(next, target, step, wait_ms);
    if next < target {
        lemma_rise(next, target, step, wait_ms);
    }
    assert(r == seq![write_of(next, wait_ms)] + tail);
    assert forall|i: int| 0 <= i < r.len() implies from < #[trigger] r[i].duty <= target by {
        if i > 0 {
            assert(r[i] == tail[i - 1]);
        }
    }
    assert forall|i: int| 0 <= i < r.len() - 1 implies #[trigger] r[i].duty < r[i + 1].duty
        <= r[i].duty + step by {
        assert(r[i + 1] == tail[i]);
        if i > 0 {
            assert(r[i] == tail[i - 1]);
        }
    }
}

proof fn lemma_fall(from: int, target: int, step: int, wait_ms: u32)
    requires
        1 <= step,
        0 <= target <= from <= u32::MAX,
    ensures
        ({
            let r = fall(from, target, step, wait_ms);
            &&& 1 <= r.len() <= from - target + 1
            &&& forall|i: int| 0 <= i < r.len() ==> target <= #[trigger] r[i].duty <= from
            &&& r[0].duty == from
            &&& r.last().duty < target + step
            &&& forall|i: int| 0 <= i < r.len() - 1 ==> #[trigger] r[i].duty == r[i + 1].duty + step
        }),
    decreases from - target,
{
    let r = fall(from, target, step, wait_ms);
    let tail = fall(from - step, target, step, wait_ms);
    if from - step >= target {
        lemma_fall(from - step, target, step, wait_ms);
    }
    assert(r == seq![write_of(from, wait_ms)] + tail);
    assert forall|i: int| 0 <= i < r.len() implies target <= #[trigger] r[i].duty <= from by {
        if i > 0 {
            assert(r[i] == tail[i - 1]);
        }
    }
    assert forall|i: int| 0 <= i < r.len() - 1 implies #[trigger] r[i].duty == r[i + 1].duty
        + step by {
        assert(r[i + 1] == tail[i]);
        if i > 0 {
            assert(r[i] == tail[i - 1]);
        }
    }
}

proof fn lemma_rise_len(from: int, target: int, step: int, wait_ms: u32)
    requires
        1 <= step,
        from < target,
    ensures
        rise(from, target, step, wait_ms).len() == (target - from + step - 1) / step,
    decreases target - from,
{
    let next = if from + step >= target {
        target
    } else {
        from + step
    };
    assert(rise(from, target, step, wait_ms) == seq![write_of(next, wait_ms)] + rise(
        next,
        target,
        step,
        wait_ms,
    ));
    if from + step >= target {
        assert(rise(next, target, step, wait_ms).len() == 0);
        assert((target - from + step - 1) / step == 1) by (nonlinear_arith)
            requires
                1 <= step,
                0 < target - from <= step,
        ;
    } else {
        lemma_rise_len(from + step, target, step, wait_ms);
        assert((target - from + step - 1) / step == 1 + (target - (from + step) + step - 1) / step)
            by (nonlinear_arith)
            requires
                1 <= step,
                target - from > step,
        ;
    }
}

proof fn lemma_fall_len(from: int, target: int, step: int, wait_ms: u32)
    requires
        1 <= step,
        target <= from,
    ensures
        fall(from, target, step, wait_ms).len() == (from - target) / step + 1,
    decreases from - target,
{
    assert(fall(from, target, step, wait_ms) == seq![write_of(from, wait_ms)] + fall(
        from - step,
        target,
        step,
        wait_ms,
    ));
    if from - step < target {
        assert(fall(from - step, target, step, wait_ms).len() == 0);
        assert((from - target) / step == 0) by (nonlinear_arith)
            requires
                1 <= step,
                0 <= from - target < step,
        ;
    } else {
        lemma_fall_len(from - step, target, step, wait_ms);
        assert((from - target) / step == (from - step - target) / step + 1) by (nonlinear_arith)
            requires
                1 <= step,
                from - target >= step,
        ;
    }
}

/// The number of writes of a ramp between two different duties: one per
/// started step going up, and going down one per step below `current` plus
/// the landing on `target`.
pub open spec fn ramp_len(current: int, target: int, step: int) -> int {
    if target > current {
        (target - current + step - 1) / step
    } else {
        (current - 1 - target) / step + 2
    }
}

/// Every ramp between two different duties ends exactly on the target after
/// `ramp_len` writes, which is at most `gap(current, target) + 1`, and never
/// leaves the range between the two values. It moves monotonically towards
/// the target, no write more than `step` away from the duty before it.
pub proof fn ramp_converges(
    current: u32,
    target: u32,
    step: u32,
    delay_up_ms: u32,
    delay_down_ms: u32,
)
    requires
        step >= 1,
        current != target,
    ensures
        ({
            let w = ramp_writes(current as int, target as int, step as int, delay_up_ms, delay_down_ms);
            &&& 1 <= w.len() <= gap(current as int, target as int) + 1
            &&& w.len() == ramp_len(current as int, target as int, step as int)
            &&& w.last().duty == target
            &&& forall|i: int|
                0 <= i < w.len() ==> (current <= #[trigger] w[i].duty <= target || target
                    <= w[i].duty <= current)
            &&& gap(current as int, w[0].duty as int) <= step
            &&& forall|i: int|
                0 <= i < w.len() - 1 ==> gap(#[trigger] w[i].duty as int, w[i + 1].duty as int)
                    <= step
            &&& target > current ==> forall|i: int|
                0 <= i < w.len() - 1 ==> #[trigger] w[i].duty < w[i + 1].duty
            &&& target < current ==> forall|i: int|
                0 <= i < w.len() - 1 ==> #[trigger] w[i + 1].duty <= w[i].duty
        }),
{
    if target > current {
        lemma_rise(current as int, target as int, step as int, delay_up_ms);
        lemma_rise_len(current as int, target as int, step as int, delay_up_ms);
    } else {
        lemma_fall(current - 1, target as int, step as int, delay_down_ms);
        lemma_fall_len(current - 1, target as int, step as int, delay_down_ms);
        let f = fall(current - 1, target as int, step as int, delay_down_ms);
        let w = f.push(write_of(target as int, 0));
        assert forall|i: int| 0 <= i < w.len() implies target <= #[trigger] w[i].duty
            <= current by {
            if i < f.len() {
                assert(w[i] == f[i]);
            }
        }
        assert(w[0] == f[0]);
        assert forall|i: int| 0 <= i < w.len() - 1 implies #[trigger] w[i + 1].duty <= w[i].duty
            && gap(w[i].duty as int, w[i + 1].duty as int) <= step by {
            assert(w[i] == f[i]);
            if i + 1 < f.len() {
                assert(w[i + 1] == f[i + 1]);
            }
        }
    }
}

/// A ramp to the duty a motor already has writes nothing, so it also waits
/// for nothing.
pub proof fn ramp_in_place_is_idle(current: u32, step: u32, delay_up_ms: u32, delay_down_ms: u32)
    ensures
        ramp_writes(current as int, current as int, step as int, delay_up_ms, delay_down_ms).len()
            == 0,
{
}


/// The writes of an exponential approach to rest: each multiplies the duty
/// by `num / den`, rounded down. The approach ends at zero, or as soon as a
/// step would not lower the duty.
pub open spec fn decay_writes(duty: int, num: int, den: int, wait_ms: u32) -> Seq<DutyWrite>
    decreases duty,
{
    if duty <= 0 || den <= 0 {
        Seq::empty()
    } else {
        let next = duty * num / den;
        if next >= duty || next < 0 {
            Seq::empty()
        } else {
            seq![write_of(next, wait_ms)] + decay_writes(next, num, den, wait_ms)
        }
    }
}

proof fn lemma_scaled_below(duty: int, num: int, den: int)
    requires
        0 < duty,
        0 <= num < den,
    ensures
        0 <= duty * num / den < duty,
{
    assert(0 <= duty * num) by (nonlinear_arith)
        requires
            0 < duty,
            0 <= num,
    ;
    assert(duty * num < duty * den) by (nonlinear_arith)
        requires
            0 < duty,
            num < den,
    ;
    assert(duty * num / den < duty) by (nonlinear_arith)
        requires
            0 <= duty * num < duty * den,
            0 < den,
    ;
}

/// `duty * num / den`, rounded down.
fn scaled(duty: u32, num: u32, den: u32) -> (r: u32)
    requires
        num < den,
    ensures
        r == (duty as int) * (num as int) / (den as int),
{
    if duty == 0 {
        return 0;
    }
    proof {
        lemma_scaled_below(duty as int, num as int, den as int);
        assert((duty as int) * (num as int) <= (u32::MAX as int) * (u32::MAX as int))
            by (nonlinear_arith)
            requires
                duty <= u32::MAX,
                num <= u32::MAX,
        ;
    }
    let wide: u64 = (duty as u64) * (num as u64) / (den as u64);
    wide as u32
}

/// Plans the decay of a duty towards rest by the factor `num / den`.
pub fn decay(duty: u32, num: u32, den: u32, wait_ms: u32) -> (writes: Vec<DutyWrite>)
    requires
        num < den,
    ensures
        writes@ == decay_writes(duty as int, num as int, den as int, wait_ms),
{
    let mut writes: Vec<DutyWrite> = Vec::new();
    let mut current: u32 = duty;
    let mut next: u32 = scaled(current, num, den);
    while current > 0 && next < current
        invariant
            num < den,
            next == (current as int) * (num as int) / (den as int),
            writes@ + decay_writes(current as int, num as int, den as int, wait_ms) == decay_writes(
                duty as int,
                num as int,
                den as int,
                wait_ms,
            ),
        decreases current,
    {
        let w = DutyWrite { duty: next, wait_ms };
        proof {
            let tail = decay_writes(next as int, num as int, den as int, wait_ms);
            assert(decay_writes(current as int, num as int, den as int, wait_ms) == seq![w] + tail);
            assert(writes@.push(w) + tail =~= writes@ + (seq![w] + tail));
        }
        writes.push(w);
        current = next;
        next = scaled(current, num, den);
    }
    assert(writes@ + decay_writes(current as int, num as int, den as int, wait_ms) =~= writes@);
    writes
}

/// A decay by a factor strictly between zero and one always comes to rest:
/// it writes nothing from zero, and otherwise its last write is zero. No
/// write exceeds the starting duty.
pub proof fn decay_reaches_rest(duty: u32, num: u32, den: u32, wait_ms: u32)
    requires
        0 < num < den,
    ensures
        ({
            let w = decay_writes(duty as int, num as int, den as int, wait_ms);
            &&& duty == 0 ==> w.len() == 0
            &&& duty > 0 ==> w.len() >= 1 && w.last().duty == 0
            &&& forall|i: int| 0 <= i < w.len() ==> #[trigger] w[i].duty < duty
        }),
    decreases duty,
{
    if duty > 0 {
        lemma_scaled_below(duty as int, num as int, den as int);
        let next = ((duty as int) * (num as int) / (den as int)) as u32;
        decay_reaches_rest(next, num, den, wait_ms);
        let w = decay_writes(duty as int, num as int, den as int, wait_ms);
        let tail = decay_writes(next as int, num as int, den as int, wait_ms);
        assert(w == seq![write_of(next as int, wait_ms)] + tail);
        assert forall|i: int| 0 <= i < w.len() implies #[trigger] w[i].duty < duty by {
            if i > 0 {
                assert(w[i] == tail[i - 1]);
            }
        }
    }
}

} // verus!
