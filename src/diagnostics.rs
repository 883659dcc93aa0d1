//! Hardware self-test routines: long, fixed choreographies of mouth
//! movements used to tune timings on a real fish. Each routine is a script
//! of mouth operations, performed by `BillyBass::run_script`.
use crate::bass::{
    after_mouth_set, after_mouth_stop, mouth_set_is_guarded, mouth_set_plan, mouth_stop_plan,
    mouth_stop_rests, BillyBass, MouthDirection,
};
use crate::hardware::{
    all_guarded, duty_actions, idle, lemma_run_push, plans_compose, run, Action, Hardware, Motor,
};
use vstd::prelude::*;

verus! {

/// One step of a mouth script.
#[derive(Clone, Copy, Debug, PartialEq, Eq, Structural)]
pub enum MouthOp {
    /// `mouth_set` with this direction and speed.
    Drive(MouthDirection, u8),
    /// `mouth_stop`.
    Stop,
    /// A pause of this many milliseconds.
    Wait(u32),
}

pub open spec fn op_plan(h: Hardware, d: MouthDirection, op: MouthOp) -> Seq<Action> {
    match op {
        MouthOp::Drive(dir, speed) => mouth_set_plan(h, d, dir, speed),
        MouthOp::Stop => mouth_stop_plan(h),
        MouthOp::Wait(ms) => seq![Action::Wait(ms)],
    }
}

pub open spec fn op_state(h: Hardware, d: MouthDirection, op: MouthOp) -> (Hardware, MouthDirection) {
    match op {
        MouthOp::Drive(dir, speed) => (after_mouth_set(h, d, dir, speed), dir),
        MouthOp::Stop => (after_mouth_stop(h), d),
        MouthOp::Wait(_) => (h, d),
    }
}

/// The hardware and mouth direction after a script.
pub open spec fn script_state(h: Hardware, d: MouthDirection, ops: Seq<MouthOp>) -> (
    Hardware,
    MouthDirection,
)
    decreases ops.len(),
{
    if ops.len() == 0 {
        (h, d)
    } else {
        let s = script_state(h, d, ops.drop_last());
        op_state(s.0, s.1, ops.last())
    }
}

/// The plan of a script: the plans of its operations, in order.
pub open spec fn script_plan(h: Hardware, d: MouthDirection, ops: Seq<MouthOp>) -> Seq<Action>
    decreases ops.len(),
{
    if ops.len() == 0 {
        Seq::empty()
    } else {
        let s = script_state(h, d, ops.drop_last());
        script_plan(h, d, ops.drop_last()) + op_plan(s.0, s.1, ops.last())
    }
}

/// `s` repeated `n` times.
pub open spec fn repeat(s: Seq<MouthOp>, n: nat) -> Seq<MouthOp>
    decreases n,
{
    if n == 0 {
        Seq::empty()
    } else {
        repeat(s, (n - 1) as nat) + s
    }
}

pub open spec fn open_stop_cycle(delay_ms: u32) -> Seq<MouthOp> {
    seq![
        MouthOp::Drive(MouthDirection::Opening, 180),
        MouthOp::Wait(delay_ms),
        MouthOp::Stop,
        MouthOp::Wait(delay_ms),
    ]
}

/// Five open-and-stop cycles for each hold time 100, 150, ..., up to the
/// `k`-th, each group followed by a 500 ms pause.
pub open spec fn cycle_phase(k: nat) -> Seq<MouthOp>
    decreases k,
{
    if k == 0 {
        Seq::empty()
    } else {
        cycle_phase((k - 1) as nat) + repeat(open_stop_cycle((100 + 50 * (k - 1)) as u32), 5)
            + seq![MouthOp::Wait(500)]
    }
}

/// Opening to 0, 5, 10, ... (`n` values), 10 ms apart.
pub open spec fn sweep_up(n: nat) -> Seq<MouthOp>
    decreases n,
{
    if n == 0 {
        Seq::empty()
    } else {
        sweep_up((n - 1) as nat) + seq![
            MouthOp::Drive(MouthDirection::Opening, (5 * (n - 1)) as u8),
            MouthOp::Wait(10),
        ]
    }
}

/// Opening to 255, 250, 245, ... (`n` values), 10 ms apart.
pub open spec fn sweep_down(n: nat) -> Seq<MouthOp>
    decreases n,
{
    if n == 0 {
        Seq::empty()
    } else {
        sweep_down((n - 1) as nat) + seq![
            MouthOp::Drive(MouthDirection::Opening, (255 - 5 * (n - 1)) as u8),
            MouthOp::Wait(10),
        ]
    }
}

/// The articulation routine: the open-and-stop cycles, then a sweep from
/// zero to full duty in steps of 5, a 200 ms hold, and a sweep back to zero.
pub open spec fn articulation_script() -> Seq<MouthOp> {
    cycle_phase(5) + sweep_up(52) + seq![MouthOp::Wait(200)] + sweep_down(52)
}

/// Open, hold, actively close, hold, stop, pause 100 ms.
pub open spec fn syllable_ops(open_speed: u8, close_speed: u8, open_time: u32, close_time: u32) -> Seq<
    MouthOp,
> {
    seq![
        MouthOp::Drive(MouthDirection::Opening, open_speed),
        MouthOp::Wait(open_time),
        MouthOp::Drive(MouthDirection::Closing, close_speed),
        MouthOp::Wait(close_time),
        MouthOp::Stop,
        MouthOp::Wait(100),
    ]
}

/// The speeds tried by the active closing routine: 100, 150, 200, 255.
pub open spec fn trial_speed(s: int) -> u8 {
    if s == 0 {
        100
    } else if s == 1 {
        150
    } else if s == 2 {
        200
    } else {
        255
    }
}

/// For opening time `200 + 100 * o` and closing time `50 + 50 * c`: three
/// syllables and a 500 ms pause for each of the first `n` speeds.
pub open spec fn speed_phase(o: int, c: int, n: nat) -> Seq<MouthOp>
    decreases n,
{
    if n == 0 {
        Seq::empty()
    } else {
        let sp = trial_speed(n - 1);
        speed_phase(o, c, (n - 1) as nat) + repeat(
            syllable_ops(sp, sp, (200 + 100 * o) as u32, (50 + 50 * c) as u32),
            3,
        ) + seq![MouthOp::Wait(500)]
    }
}

/// All four speeds, then a 1000 ms pause, for each of the first `n`
/// closing times.
pub open spec fn closing_phase(o: int, n: nat) -> Seq<MouthOp>
    decreases n,
{
    if n == 0 {
        Seq::empty()
    } else {
        closing_phase(o, (n - 1) as nat) + speed_phase(o, n - 1, 4) + seq![MouthOp::Wait(1000)]
    }
}

/// All closing times for each of the first `n` opening times.
pub open spec fn opening_phase(n: nat) -> Seq<MouthOp>
    decreases n,
{
    if n == 0 {
        Seq::empty()
    } else {
        opening_phase((n - 1) as nat) + closing_phase(n - 1, 4)
    }
}

/// The speech-like pattern: (open speed, close speed, open ms, close ms).
pub open spec fn pattern_entry(i: int) -> (u8, u8, u32, u32) {
    if i == 0 {
        (180, 200, 100, 50)
    } else if i == 1 {
        (200, 255, 250, 100)
    } else if i == 2 {
        (150, 180, 80, 40)
    } else if i == 3 {
        (170, 200, 90, 60)
    } else {
        (220, 255, 300, 150)
    }
}

pub open spec fn pattern_phase(n: nat) -> Seq<MouthOp>
    decreases n,
{
    if n == 0 {
        Seq::empty()
    } else {
        let e = pattern_entry(n - 1);
        pattern_phase((n - 1) as nat) + syllable_ops(e.0, e.1, e.2, e.3)
    }
}

/// The active closing routine: every combination of opening time, closing
/// time and speed, then the speech-like pattern.
pub open spec fn active_closing_script() -> Seq<MouthOp> {
    opening_phase(3) + pattern_phase(5)
}

/// No operation of the script drives the mouth towards closing.
pub open spec fn opening_only(ops: Seq<MouthOp>) -> bool {
    forall|i: int|
        0 <= i < ops.len() ==> !(#[trigger] ops[i] matches MouthOp::Drive(MouthDirection::Closing, _))
}

/// Every write of the mouth's pins in the plan puts both pins low.
pub open spec fn neutral_mouth_pins(plan: Seq<Action>) -> bool {
    forall|i: int|
        0 <= i < plan.len() ==> (#[trigger] plan[i] matches Action::Pins(Motor::Mouth, a, b) ==> !a
            && !b)
}

proof fn lemma_opening_only_concat(a: Seq<MouthOp>, b: Seq<MouthOp>)
    requires
        opening_only(a),
        opening_only(b),
    ensures
        opening_only(a + b),
{
    assert forall|i: int| 0 <= i < (a + b).len() implies !(#[trigger] (a + b)[i] matches MouthOp::Drive(
        MouthDirection::Closing,
        _,
    )) by {
        if i >= a.len() {
            assert((a + b)[i] == b[i - a.len()]);
        }
    }
}

proof fn lemma_neutral_concat(a: Seq<Action>, b: Seq<Action>)
    requires
        neutral_mouth_pins(a),
        neutral_mouth_pins(b),
    ensures
        neutral_mouth_pins(a + b),
{
    assert forall|i: int| 0 <= i < (a + b).len() implies (#[trigger] (a + b)[i] matches Action::Pins(
        Motor::Mouth,
        x,
        y,
    ) ==> !x && !y) by {
        if i >= a.len() {
            assert((a + b)[i] == b[i - a.len()]);
        }
    }
}

proof fn lemma_repeat_opening_only(s: Seq<MouthOp>, n: nat)
    requires
        opening_only(s),
    ensures
        opening_only(repeat(s, n)),
    decreases n,
{
    if n > 0 {
        lemma_repeat_opening_only(s, (n - 1) as nat);
        lemma_opening_only_concat(repeat(s, (n - 1) as nat), s);
    }
}

proof fn lemma_articulation_opening_only()
    ensures
        opening_only(articulation_script()),
{
    assert forall|k: nat| k <= 5 implies opening_only(#[trigger] cycle_phase(k)) by {
        lemma_cycle_phase_opening_only(k);
    }
    lemma_sweep_up_opening_only(52);
    lemma_sweep_down_opening_only(52);
    lemma_opening_only_concat(cycle_phase(5), sweep_up(52));
    lemma_opening_only_concat(cycle_phase(5) + sweep_up(52), seq![MouthOp::Wait(200)]);
    lemma_opening_only_concat(
        cycle_phase(5) + sweep_up(52) + seq![MouthOp::Wait(200)],
        sweep_down(52),
    );
}

proof fn lemma_cycle_phase_opening_only(k: nat)
    ensures
        opening_only(cycle_phase(k)),
    decreases k,
{
    if k > 0 {
        let unit = open_stop_cycle((100 + 50 * (k - 1)) as u32);
        lemma_cycle_phase_opening_only((k - 1) as nat);
        lemma_repeat_opening_only(unit, 5);
        lemma_opening_only_concat(cycle_phase((k - 1) as nat), repeat(unit, 5));
        lemma_opening_only_concat(
            cycle_phase((k - 1) as nat) + repeat(unit, 5),
            seq![MouthOp::Wait(500)],
        );
    }
}

proof fn lemma_sweep_up_opening_only(n: nat)
    ensures
        opening_only(sweep_up(n)),
    decreases n,
{
    if n > 0 {
        lemma_sweep_up_opening_only((n - 1) as nat);
        lemma_opening_only_concat(
            sweep_up((n - 1) as nat),
            seq![
                MouthOp::Drive(MouthDirection::Opening, (5 * (n - 1)) as u8),
                MouthOp::Wait(10),
            ],
        );
    }
}

proof fn lemma_sweep_down_opening_only(n: nat)
    ensures
        opening_only(sweep_down(n)),
    decreases n,
{
    if n > 0 {
        lemma_sweep_down_opening_only((n - 1) as nat);
        lemma_opening_only_concat(
            sweep_down((n - 1) as nat),
            seq![
                MouthOp::Drive(MouthDirection::Opening, (255 - 5 * (n - 1)) as u8),
                MouthOp::Wait(10),
            ],
        );
    }
}

/// A script that never drives the mouth towards closing, started with the
/// direction Opening, never reverses the mouth: its only writes of the
/// mouth's pins put both low, and the direction stays Opening.
pub proof fn opening_scripts_never_reverse(h: Hardware, ops: Seq<MouthOp>)
    requires
        opening_only(ops),
    ensures
        neutral_mouth_pins(script_plan(h, MouthDirection::Opening, ops)),
        script_state(h, MouthDirection::Opening, ops).1 == MouthDirection::Opening,
    decreases ops.len(),
{
    if ops.len() > 0 {
        let init = ops.drop_last();
        assert forall|i: int| 0 <= i < init.len() implies !(#[trigger] init[i] matches MouthOp::Drive(
            MouthDirection::Closing,
            _,
        )) by {
            assert(init[i] == ops[i]);
        }
        opening_scripts_never_reverse(h, init);
        let st = script_state(h, MouthDirection::Opening, init);
        let last = ops.last();
        assert(!(ops[ops.len() - 1] matches MouthOp::Drive(MouthDirection::Closing, _)));
        let p = op_plan(st.0, st.1, last);
        match last {
            MouthOp::Drive(dir, speed) => {
                let w = crate::bass::mouth_writes(st.0.mouth.duty, speed);
                assert(p =~= duty_actions(Motor::Mouth, w));
                assert forall|i: int| 0 <= i < p.len() implies (#[trigger] p[i] matches Action::Pins(
                    Motor::Mouth,
                    x,
                    y,
                ) ==> !x && !y) by {
                    assert(p[i] == Action::Duty(Motor::Mouth, w[i]));
                }
            },
            MouthOp::Stop => {
                let f = duty_actions(
                    Motor::Mouth,
                    crate::ramp::fall(
                        st.0.mouth.duty - 1,
                        0,
                        crate::bass::MOUTH_STEP as int,
                        crate::bass::MOUTH_DELAY_DOWN_MS,
                    ),
                );
                assert forall|i: int| 0 <= i < p.len() implies (#[trigger] p[i] matches Action::Pins(
                    Motor::Mouth,
                    x,
                    y,
                ) ==> !x && !y) by {
                    if i < f.len() {
                        assert(p[i] == f[i]);
                    }
                }
            },
            MouthOp::Wait(_) => {},
        }
        lemma_neutral_concat(script_plan(h, MouthDirection::Opening, init), p);
    }
}

/// Whatever came before, driving the mouth leaves its duty at the speed
/// asked for and its direction as asked.
pub proof fn drive_reaches_speed(
    h: Hardware,
    d: MouthDirection,
    ops: Seq<MouthOp>,
    dir: MouthDirection,
    speed: u8,
)
    ensures
        script_state(h, d, ops.push(MouthOp::Drive(dir, speed))).0.mouth.duty == speed,
        script_state(h, d, ops.push(MouthOp::Drive(dir, speed))).1 == dir,
{
    lemma_script_push(h, d, ops, MouthOp::Drive(dir, speed));
}

proof fn lemma_script_push(h: Hardware, d: MouthDirection, ops: Seq<MouthOp>, op: MouthOp)
    ensures
        script_state(h, d, ops.push(op)) == ({
            let s = script_state(h, d, ops);
            op_state(s.0, s.1, op)
        }),
        script_plan(h, d, ops.push(op)) == script_plan(h, d, ops) + ({
            let s = script_state(h, d, ops);
            op_plan(s.0, s.1, op)
        }),
{
    assert(ops.push(op).drop_last() =~= ops);
}

/// Appends `sub` to `plan`, where `plan` is run from `h0` and `sub` from the
/// state that `plan` leaves.
fn extend_plan(plan: &mut Vec<Action>, sub: Vec<Action>, Ghost(h0): Ghost<Hardware>)
    requires
        all_guarded(h0, old(plan)@),
        all_guarded(run(h0, old(plan)@), sub@),
    ensures
        final(plan)@ == old(plan)@ + sub@,
        all_guarded(h0, final(plan)@),
        run(h0, final(plan)@) == run(run(h0, old(plan)@), sub@),
{
    let mut sub = sub;
    proof {
        plans_compose(h0, plan@, sub@);
    }
    plan.append(&mut sub);
}

fn push_seq(ops: &mut Vec<MouthOp>, more: &Vec<MouthOp>)
    ensures
        final(ops)@ == old(ops)@ + more@,
{
    let mut i: usize = 0;
    let ghost start = ops@;
    while i < more.len()
        invariant
            i <= more@.len(),
            ops@ == start + more@.take(i as int),
        decreases more@.len() - i,
    {
        assert(more@.take(i + 1) =~= more@.take(i as int).push(more@[i as int]));
        ops.push(more[i]);
        i = i + 1;
    }
    assert(more@.take(i as int) =~= more@);
}

fn open_stop_cycle_ops(delay_ms: u32) -> (r: Vec<MouthOp>)
    ensures
        r@ == open_stop_cycle(delay_ms),
{
    let mut r: Vec<MouthOp> = Vec::new();
    r.push(MouthOp::Drive(MouthDirection::Opening, 180));
    r.push(MouthOp::Wait(delay_ms));
    r.push(MouthOp::Stop);
    r.push(MouthOp::Wait(delay_ms));
    assert(r@ =~= open_stop_cycle(delay_ms));
    r
}

fn syllable_ops_exec(open_speed: u8, close_speed: u8, open_time: u32, close_time: u32) -> (r: Vec<
    MouthOp,
>)
    ensures
        r@ == syllable_ops(open_speed, close_speed, open_time, close_time),
{
    let mut r: Vec<MouthOp> = Vec::new();
    r.push(MouthOp::Drive(MouthDirection::Opening, open_speed));
    r.push(MouthOp::Wait(open_time));
    r.push(MouthOp::Drive(MouthDirection::Closing, close_speed));
    r.push(MouthOp::Wait(close_time));
    r.push(MouthOp::Stop);
    r.push(MouthOp::Wait(100));
    assert(r@ =~= syllable_ops(open_speed, close_speed, open_time, close_time));
    r
}

/// Appends `unit` `n` times.
fn push_repeat(ops: &mut Vec<MouthOp>, unit: &Vec<MouthOp>, n: u32)
    ensures
        final(ops)@ == old(ops)@ + repeat(unit@, n as nat),
{
    let ghost start = ops@;
    let mut k: u32 = 0;
    assert(start + repeat(unit@, 0) =~= start);
    while k < n
        invariant
            k <= n,
            ops@ == start + repeat(unit@, k as nat),
        decreases n - k,
    {
        push_seq(ops, unit);
        assert(repeat(unit@, (k + 1) as nat) == repeat(unit@, k as nat) + unit@);
        assert(ops@ =~= start + repeat(unit@, (k + 1) as nat));
        k = k + 1;
    }
}

fn articulation_ops() -> (ops: Vec<MouthOp>)
    ensures
        ops@ == articulation_script(),
{
    let mut ops: Vec<MouthOp> = Vec::new();
    let mut k: u32 = 0;
    assert(ops@ =~= cycle_phase(0));
    while k < 5
        invariant
            k <= 5,
            ops@ == cycle_phase(k as nat),
        decreases 5 - k,
    {
        let unit = open_stop_cycle_ops(100 + 50 * k);
        push_repeat(&mut ops, &unit, 5);
        ops.push(MouthOp::Wait(500));
        assert(ops@ =~= cycle_phase((k + 1) as nat));
        k = k + 1;
    }
    let ghost p1 = ops@;
    let mut j: u32 = 0;
    assert(ops@ =~= p1 + sweep_up(0));
    while j < 52
        invariant
            j <= 52,
            ops@ == p1 + sweep_up(j as nat),
        decreases 52 - j,
    {
        ops.push(MouthOp::Drive(MouthDirection::Opening, (5 * j) as u8));
        ops.push(MouthOp::Wait(10));
        assert(ops@ =~= p1 + sweep_up((j + 1) as nat));
        j = j + 1;
    }
    ops.push(MouthOp::Wait(200));
    let ghost p2 = ops@;
    let mut j: u32 = 0;
    assert(ops@ =~= p2 + sweep_down(0));
    while j < 52
        invariant
            j <= 52,
            ops@ == p2 + sweep_down(j as nat),
        decreases 52 - j,
    {
        ops.push(MouthOp::Drive(MouthDirection::Opening, (255 - 5 * j) as u8));
        ops.push(MouthOp::Wait(10));
        assert(ops@ =~= p2 + sweep_down((j + 1) as nat));
        j = j + 1;
    }
    assert(ops@ =~= articulation_script());
    ops
}

fn trial_speed_exec(s: usize) -> (r: u8)
    ensures
        r == trial_speed(s as int),
{
    if s == 0 {
        100
    } else if s == 1 {
        150
    } else if s == 2 {
        200
    } else {
        255
    }
}

fn pattern_entry_exec(i: usize) -> (r: (u8, u8, u32, u32))
    ensures
        r == pattern_entry(i as int),
{
    if i == 0 {
        (180, 200, 100, 50)
    } else if i == 1 {
        (200, 255, 250, 100)
    } else if i == 2 {
        (150, 180, 80, 40)
    } else if i == 3 {
        (170, 200, 90, 60)
    } else {
        (220, 255, 300, 150)
    }
}

fn active_closing_ops() -> (ops: Vec<MouthOp>)
    ensures
        ops@ == active_closing_script(),
{
    let mut ops: Vec<MouthOp> = Vec::new();
    let mut o: usize = 0;
    assert(ops@ =~= opening_phase(0));
    while o < 3
        invariant
            o <= 3,
            ops@ == opening_phase(o as nat),
        decreases 3 - o,
    {
        let ghost po = ops@;
        let mut c: usize = 0;
        assert(ops@ =~= po + closing_phase(o as int, 0));
        while c < 4
            invariant
                o < 3,
                c <= 4,
                ops@ == po + closing_phase(o as int, c as nat),
            decreases 4 - c,
        {
            let ghost pc = ops@;
            let mut s: usize = 0;
            assert(ops@ =~= pc + speed_phase(o as int, c as int, 0));
            while s < 4
                invariant
                    o < 3,
                    c < 4,
                    s <= 4,
                    ops@ == pc + speed_phase(o as int, c as int, s as nat),
                decreases 4 - s,
            {
                let sp = trial_speed_exec(s);
                let unit = syllable_ops_exec(sp, sp, 200 + 100 * (o as u32), 50 + 50 * (c as u32));
                push_repeat(&mut ops, &unit, 3);
                ops.push(MouthOp::Wait(500));
                assert(ops@ =~= pc + speed_phase(o as int, c as int, (s + 1) as nat));
                s = s + 1;
            }
            ops.push(MouthOp::Wait(1000));
            assert(ops@ =~= po + closing_phase(o as int, (c + 1) as nat));
            c = c + 1;
        }
        assert(ops@ =~= opening_phase((o + 1) as nat));
        o = o + 1;
    }
    let ghost p1 = ops@;
    let mut i: usize = 0;
    assert(ops@ =~= p1 + pattern_phase(0));
    while i < 5
        invariant
            i <= 5,
            ops@ == p1 + pattern_phase(i as nat),
        decreases 5 - i,
    {
        let (open_speed, close_speed, open_time, close_time) = pattern_entry_exec(i);
        let unit = syllable_ops_exec(open_speed, close_speed, open_time, close_time);
        push_seq(&mut ops, &unit);
        assert(ops@ =~= p1 + pattern_phase((i + 1) as nat));
        i = i + 1;
    }
    assert(ops@ =~= active_closing_script());
    ops
}

impl BillyBass {
    /// Performs a script of mouth operations in order.
    pub fn run_script(&mut self, ops: &Vec<MouthOp>) -> (plan: Vec<Action>)
        requires
            old(self).wf(),
        ensures
            plan@ == script_plan(old(self).hardware(), old(self).direction(), ops@),
            (final(self).hardware(), final(self).direction()) == script_state(
                old(self).hardware(),
                old(self).direction(),
                ops@,
            ),
            final(self).hardware() == run(old(self).hardware(), plan@),
            all_guarded(old(self).hardware(), plan@),
            final(self).hardware().head == old(self).hardware().head,
            final(self).wf(),
    {
        let ghost h0 = self.hardware();
        let ghost d0 = self.direction();
        let mut plan: Vec<Action> = Vec::new();
        let mut i: usize = 0;
        assert(ops@.take(0) =~= Seq::<MouthOp>::empty());
        while i < ops.len()
            invariant
                self.wf(),
                i <= ops@.len(),
                plan@ == script_plan(h0, d0, ops@.take(i as int)),
                (self.hardware(), self.direction()) == script_state(h0, d0, ops@.take(i as int)),
                self.hardware() == run(h0, plan@),
                all_guarded(h0, plan@),
                self.hardware().head == h0.head,
            decreases ops@.len() - i,
        {
            let op = ops[i];
            let ghost h = self.hardware();
            let ghost d = self.direction();
            proof {
                assert(ops@.take(i + 1) =~= ops@.take(i as int).push(op));
                lemma_script_push(h0, d0, ops@.take(i as int), op);
            }
            let sub = match op {
                MouthOp::Drive(dir, speed) => {
                    let sub = self.mouth_set(dir, speed);
                    sub
                },
                MouthOp::Stop => self.mouth_stop(),
                MouthOp::Wait(ms) => {
                    let mut sub: Vec<Action> = Vec::new();
                    sub.push(Action::Wait(ms));
                    proof {
                        lemma_run_push(h, Seq::empty(), Action::Wait(ms));
                        assert(Seq::<Action>::empty().push(Action::Wait(ms)) =~= sub@);
                    }
                    sub
                },
            };
            extend_plan(&mut plan, sub, Ghost(h0));
            i = i + 1;
        }
        assert(ops@.take(i as int) =~= ops@);
        plan
    }

    /// Open-and-stop cycles at a range of hold times, then a slow opening
    /// sweep from zero to full duty in steps of 5 and a slow sweep back.
    pub fn test_mouth_articulation(&mut self) -> (plan: Vec<Action>)
        requires
            old(self).wf(),
        ensures
            plan@ == script_plan(old(self).hardware(), old(self).direction(), articulation_script()),
            (final(self).hardware(), final(self).direction()) == script_state(
                old(self).hardware(),
                old(self).direction(),
                articulation_script(),
            ),
            final(self).hardware() == run(old(self).hardware(), plan@),
            all_guarded(old(self).hardware(), plan@),
            final(self).hardware().head == old(self).hardware().head,
            final(self).hardware().mouth.duty == 0,
            final(self).direction() == MouthDirection::Opening,
            old(self).direction() == MouthDirection::Opening ==> neutral_mouth_pins(plan@),
            final(self).wf(),
    {
        let ops = articulation_ops();
        let plan = self.run_script(&ops);
        proof {
            let h = old(self).hardware();
            let d = old(self).direction();
            let pre = cycle_phase(5) + sweep_up(52) + seq![MouthOp::Wait(200)] + sweep_down(51);
            let set0 = MouthOp::Drive(MouthDirection::Opening, 0);
            assert(articulation_script() =~= pre.push(set0).push(MouthOp::Wait(10)));
            lemma_script_push(h, d, pre.push(set0), MouthOp::Wait(10));
            lemma_script_push(h, d, pre, set0);
            if d == MouthDirection::Opening {
                lemma_articulation_opening_only();
                opening_scripts_never_reverse(h, articulation_script());
            }
        }
        plan
    }

    /// Open, actively close and stop, over every combination of a few
    /// speeds and hold times, then a short speech-like pattern.
    pub fn test_active_closing(&mut self) -> (plan: Vec<Action>)
        requires
            old(self).wf(),
        ensures
            plan@ == script_plan(
                old(self).hardware(),
                old(self).direction(),
                active_closing_script(),
            ),
            (final(self).hardware(), final(self).direction()) == script_state(
                old(self).hardware(),
                old(self).direction(),
                active_closing_script(),
            ),
            final(self).hardware() == run(old(self).hardware(), plan@),
            all_guarded(old(self).hardware(), plan@),
            final(self).hardware().head == old(self).hardware().head,
            final(self).hardware().mouth == idle(),
            final(self).direction() == MouthDirection::Closing,
            final(self).wf(),
    {
        let ops = active_closing_ops();
        let plan = self.run_script(&ops);
        proof {
            let h = old(self).hardware();
            let d = old(self).direction();
            let e = pattern_entry(4);
            let pre = opening_phase(3) + pattern_phase(4);
            let a = pre.push(MouthOp::Drive(MouthDirection::Opening, e.0)).push(MouthOp::Wait(e.2));
            let b = a.push(MouthOp::Drive(MouthDirection::Closing, e.1)).push(MouthOp::Wait(e.3));
            assert(active_closing_script() =~= b.push(MouthOp::Stop).push(MouthOp::Wait(100)));
            lemma_script_push(h, d, b.push(MouthOp::Stop), MouthOp::Wait(100));
            lemma_script_push(h, d, b, MouthOp::Stop);
            lemma_script_push(h, d, b.drop_last(), MouthOp::Wait(e.3));
            assert(b.drop_last().push(MouthOp::Wait(e.3)) =~= b);
            let c = b.drop_last();
            assert(c =~= a.push(MouthOp::Drive(MouthDirection::Closing, e.1)));
            lemma_script_push(h, d, a, MouthOp::Drive(MouthDirection::Closing, e.1));
        }
        plan
    }
}

} // verus!
