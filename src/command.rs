//! Commands as they arrive from the network, and the errors a command can meet.
use vstd::prelude::*;

verus! {

/// One timed mouth movement of a command.
#[derive(Clone, Copy, Debug, PartialEq, Eq, Structural)]
pub struct MouthMovement {
    /// Offset from the start of the audio, in milliseconds. The sequencer
    /// runs movements back to back in the order given and does not wait for
    /// this offset; it is carried for the caller's information.
    pub start_time_ms: u32,
    /// `true` opens the mouth, `false` closes it.
    pub is_opening: bool,
    /// The duty to drive the mouth with.
    pub speed: u8,
    /// How long to hold the movement before stopping the mouth.
    pub duration_ms: u32,
}

/// A command: opaque audio and the mouth movements to perform with it.
#[derive(Clone, Debug)]
pub struct BillyBassCommand {
    /// Base64 encoded audio data.
    pub audio: String,
    /// Audio format (for example "wav").
    pub audio_format: String,
    /// The movements, performed in this order.
    pub mouth_movements: Vec<MouthMovement>,
}

#[derive(Clone, Copy, Debug, PartialEq, Eq, Structural)]
pub enum CommandError {
    /// A field of the command is out of range.
    Validation,
    /// Another command is still driving the motors.
    Busy,
    /// A PWM or pin write failed while the command ran.
    HardwareWrite,
}

/// A movement as read from the wire, before its speed has been checked.
#[derive(Clone, Copy, Debug, PartialEq, Eq, Structural)]
pub struct RawMovement {
    pub start_time_ms: u32,
    pub is_opening: bool,
    pub speed: u32,
    pub duration_ms: u32,
}

/// The checked form of a raw movement whose speed fits a duty.
pub open spec fn checked(r: RawMovement) -> MouthMovement {
    MouthMovement {
        start_time_ms: r.start_time_ms,
        is_opening: r.is_opening,
        speed: r.speed as u8,
        duration_ms: r.duration_ms,
    }
}

impl BillyBassCommand {
    /// Builds a command from wire values. The whole command is rejected if
    /// any movement's speed is above the largest duty; otherwise the
    /// movements are kept, in order.
    pub fn from_wire(audio: String, audio_format: String, movements: &Vec<RawMovement>) -> (r:
        Result<BillyBassCommand, CommandError>)
        ensures
            (forall|i: int| 0 <= i < movements@.len() ==> #[trigger] movements@[i].speed <= 255)
                ==> r is Ok && r->Ok_0.audio == audio && r->Ok_0.audio_format == audio_format
                && r->Ok_0.mouth_movements@ == movements@.map_values(|m: RawMovement| checked(m)),
            (exists|i: int| 0 <= i < movements@.len() && #[trigger] movements@[i].speed > 255)
                ==> r == Err::<BillyBassCommand, CommandError>(CommandError::Validation),
    {
        let mut out: Vec<MouthMovement> = Vec::new();
        let mut i: usize = 0;
        while i < movements.len()
            invariant
                i <= movements@.len(),
                forall|j: int| 0 <= j < i ==> #[trigger] movements@[j].speed <= 255,
                out@ == movements@.take(i as int).map_values(|m: RawMovement| checked(m)),
            decreases movements@.len() - i,
        {
            let m = movements[i];
            match MouthMovement::from_wire(m.start_time_ms, m.is_opening, m.speed, m.duration_ms) {
                Ok(checked_movement) => {
                    out.push(checked_movement);
                    assert(movements@.take(i + 1).map_values(|m: RawMovement| checked(m))
                        =~= movements@.take(i as int).map_values(|m: RawMovement| checked(m)).push(
                        checked(m),
                    ));
                },
                Err(e) => {
                    return Err(e);
                },
            }
            i = i + 1;
        }
        assert(movements@.take(i as int) =~= movements@);
        Ok(BillyBassCommand { audio, audio_format, mouth_movements: out })
    }
}

impl MouthMovement {
    /// Builds a movement from wire values, rejecting a speed above the
    /// largest duty.
    pub fn from_wire(start_time_ms: u32, is_opening: bool, speed: u32, duration_ms: u32) -> (r:
        Result<MouthMovement, CommandError>)
        ensures
            speed <= 255 ==> r == Ok::<MouthMovement, CommandError>(
                MouthMovement { start_time_ms, is_opening, speed: speed as u8, duration_ms },
            ),
            speed > 255 ==> r == Err::<MouthMovement, CommandError>(CommandError::Validation),
    {
        if speed > 255 {
            Err(CommandError::Validation)
        } else {
            Ok(MouthMovement { start_time_ms, is_opening, speed: speed as u8, duration_ms })
        }
    }
}

} // verus!
