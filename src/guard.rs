//! The execution guard: one command at a time drives the motors. A command
//! that arrives while another is in flight is rejected as busy.
use crate::bass::{after_mouth_stop, movement_direction, mouth_stop_plan, sequence_plan, BillyBass};
use crate::command::{BillyBassCommand, CommandError};
use crate::hardware::{all_guarded, idle, run, Action, Hardware};
use vstd::prelude::*;

verus! {

pub struct Controller {
    motors: BillyBass,
    busy: bool,
}

impl Controller {
    pub closed spec fn model(&self) -> BillyBass {
        self.motors
    }

    pub closed spec fn in_flight(&self) -> bool {
        self.busy
    }

    /// The motors' model is well formed and, between commands and after
    /// every command, the mouth is at rest.
    pub open spec fn wf(&self) -> bool {
        &&& self.model().wf()
        &&& self.model().hardware().mouth == idle()
    }

    /// A controller with both motors at rest and no command in flight.
    pub fn new() -> (c: Controller)
        ensures
            c.wf(),
            !c.in_flight(),
            c.model().hardware() == (Hardware { head: idle(), mouth: idle() }),
            c.model().direction() == crate::bass::MouthDirection::Opening,
    {
        Controller { motors: BillyBass::new(), busy: false }
    }

    /// A controller over motors whose mouth is at rest, with no command in
    /// flight.
    pub fn with_motors(motors: BillyBass) -> (c: Controller)
        requires
            motors.wf(),
            motors.hardware().mouth == idle(),
        ensures
            c.wf(),
            !c.in_flight(),
            c.model() == motors,
    {
        Controller { motors, busy: false }
    }

    pub fn is_busy(&self) -> (r: bool)
        ensures
            r == self.in_flight(),
    {
        self.busy
    }

    pub fn motors(&self) -> (m: &BillyBass)
        ensures
            *m == self.model(),
    {
        &self.motors
    }

    /// Takes exclusive use of the motors for `command` and returns the plan
    /// that performs its movements. While another command is in flight the
    /// command is rejected as busy and nothing changes.
    pub fn begin(&mut self, command: &BillyBassCommand) -> (r: Result<Vec<Action>, CommandError>)
        requires
            old(self).wf(),
        ensures
            final(self).wf(),
            old(self).in_flight() ==> r == Err::<Vec<Action>, CommandError>(CommandError::Busy)
                && *final(self) == *old(self),
            !old(self).in_flight() ==> r is Ok && final(self).in_flight() && r->Ok_0@
                == sequence_plan(
                old(self).model().hardware(),
                old(self).model().direction(),
                command.mouth_movements@,
            ) && final(self).model().hardware() == run(old(self).model().hardware(), r->Ok_0@)
                && all_guarded(old(self).model().hardware(), r->Ok_0@),
            !old(self).in_flight() && command.mouth_movements@.len() == 0 ==> {
                let m = final(self).model();
                &&& m.hardware() == old(self).model().hardware()
                &&& m.direction() == old(self).model().direction()
            },
            !old(self).in_flight() && command.mouth_movements@.len() > 0 ==> {
                let m = final(self).model();
                &&& m.hardware().mouth == idle()
                &&& m.hardware().head == old(self).model().hardware().head
                &&& m.direction() == movement_direction(command.mouth_movements@.last())
            },
    {
        if self.busy {
            return Err(CommandError::Busy);
        }
        self.busy = true;
        let plan = self.motors.execute(&command.mouth_movements);
        Ok(plan)
    }

    /// Releases the motors once the plan of the command in flight has been
    /// performed. If a write failed, the rest of that plan must have been
    /// dropped: the returned plan stops the mouth at once and the command
    /// ends in a hardware error. Otherwise nothing more is needed.
    pub fn complete(&mut self, write_failed: bool) -> (r: (Vec<Action>, Result<(), CommandError>))
        requires
            old(self).wf(),
        ensures
            final(self).wf(),
            !final(self).in_flight(),
            !write_failed ==> r.0@.len() == 0 && r.1 == Ok::<(), CommandError>(())
                && final(self).model() == old(self).model(),
            write_failed ==> r.1 == Err::<(), CommandError>(CommandError::HardwareWrite)
                && r.0@ == mouth_stop_plan(old(self).model().hardware())
                && final(self).model().hardware() == after_mouth_stop(old(self).model().hardware())
                && final(self).model().hardware().mouth == idle()
                && final(self).model().direction() == old(self).model().direction(),
    {
        self.busy = false;
        if write_failed {
            let plan = self.motors.mouth_stop();
            (plan, Err(CommandError::HardwareWrite))
        } else {
            (Vec::new(), Ok(()))
        }
    }
}

} // verus!
