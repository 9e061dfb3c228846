//! Talking to a connected desk: waking it up, reading its height, stopping it and
//! moving it.
//!
//! A [`Task`] decides what to ask of the desk next. Whoever owns the connection
//! performs the [`Request`] and hands back the [`Reply`].
use vstd::prelude::*;

use crate::binary64::Binary64;
use crate::error::DeskError;
use crate::height::{allowed, close, height_ticks, is_allowed, is_close, raw_of, target_raw};
use crate::wire::{
    decode_reading, reading_of, Payload, Reading, UUID_COMMAND, UUID_DPG, UUID_HEIGHT,
    UUID_REFERENCE_INPUT,
};

verus! {

/// How long a moving desk is left alone between two looks at it, in milliseconds.
pub const POLL_INTERVAL: u64 = 200;

/// What is wanted of a desk.
#[derive(Clone, Copy, Debug, PartialEq, Eq, Structural)]
pub enum Goal {
    /// To be ready for commands.
    WakeUp,
    /// To report height and speed.
    Measure,
    /// To stop.
    Halt,
    /// To be at a height.
    MoveTo(Binary64),
}

/// How far a task has come: what it is waiting for.
#[derive(Clone, Copy, Debug, PartialEq, Eq, Structural)]
pub enum Stage {
    /// The first reading.
    Measuring,
    /// Whether there is a DPG controller.
    ProbingDpg,
    /// The DPG controller to open its settings.
    OpeningDpg,
    /// The DPG controller to be set up.
    SettingDpg,
    /// The desk to wake up.
    Waking,
    /// The desk to stop.
    Stopping,
    /// The desk to end a movement to a given height.
    StoppingReference,
    /// The desk to take the height to move to.
    Commanding,
    /// The time between two looks to pass.
    Pausing,
    /// The next reading of a moving desk.
    Polling,
    /// Nothing.
    Finished,
}

/// How a task ends.
#[derive(Clone, Copy, Debug, PartialEq, Eq, Structural)]
pub enum Outcome {
    /// What was wanted has been done.
    Completed,
    /// The desk has reported.
    Measured(Reading),
    /// Something went wrong.
    GivenUp(DeskError),
}

/// What a task asks for.
#[derive(Clone, Copy, Debug, PartialEq, Eq, Structural)]
pub enum Request {
    /// To find out whether the desk has a characteristic.
    Probe(u128),
    /// To write to a characteristic, without waiting for the desk to answer.
    Write { characteristic: u128, payload: Payload },
    /// To read a characteristic.
    Read(u128),
    /// To let some milliseconds pass.
    Wait(u64),
    /// To end here.
    Finish(Outcome),
}

/// What comes back.
pub enum Reply {
    /// It has been done.
    Done,
    /// The desk has the characteristic.
    Present,
    /// The desk does not have the characteristic.
    Absent,
    /// The desk answered with these bytes.
    Data(Vec<u8>),
    /// The radio failed.
    Failed,
}

/// What comes back, with the bytes as a sequence.
pub ghost enum ReplyView {
    Done,
    Present,
    Absent,
    Data(Seq<u8>),
    Failed,
}

impl View for Reply {
    type V = ReplyView;

    open spec fn view(&self) -> ReplyView {
        match self {
            Reply::Done => ReplyView::Done,
            Reply::Present => ReplyView::Present,
            Reply::Absent => ReplyView::Absent,
            Reply::Data(bytes) => ReplyView::Data(bytes@),
            Reply::Failed => ReplyView::Failed,
        }
    }
}

/// Where a task stands and what it asks for.
pub type Step = (Stage, Request);

/// The task is at its end.
pub open spec fn end(outcome: Outcome) -> Step {
    (Stage::Finished, Request::Finish(outcome))
}

/// The task gives up.
pub open spec fn give_up(error: DeskError) -> Step {
    end(Outcome::GivenUp(error))
}

/// The task writes, and waits in `stage`.
pub open spec fn put(stage: Stage, characteristic: u128, payload: Payload) -> Step {
    (stage, Request::Write { characteristic, payload })
}

/// The task wakes the desk.
pub open spec fn wake() -> Step {
    put(Stage::Waking, UUID_COMMAND, Payload::WakeUp)
}

/// The task sends the desk to `target`.
pub open spec fn command(target: Binary64) -> Step {
    put(Stage::Commanding, UUID_REFERENCE_INPUT, Payload::MoveTo(raw_of(target) as u16))
}

/// The task goes on to `next` if `reply` says that the write to `characteristic` was done.
pub open spec fn if_done(reply: ReplyView, characteristic: u128, next: Step) -> Step {
    match reply {
        ReplyView::Done => next,
        ReplyView::Absent => give_up(DeskError::CharacteristicMissing(characteristic)),
        _ => give_up(DeskError::Outside),
    }
}

/// What a reply to a height request says: a reading, or why there is none.
pub open spec fn reading_in(reply: ReplyView) -> Result<Reading, DeskError> {
    match reply {
        ReplyView::Data(bytes) => match reading_of(bytes) {
            Some(reading) => Ok(reading),
            None => Err(DeskError::InvalidHeightData),
        },
        ReplyView::Absent => Err(DeskError::CharacteristicMissing(UUID_HEIGHT)),
        _ => Err(DeskError::Outside),
    }
}

/// How a task begins.
pub open spec fn opening(goal: Goal) -> Step {
    match goal {
        Goal::WakeUp => (Stage::ProbingDpg, Request::Probe(UUID_DPG)),
        Goal::Measure => (Stage::Measuring, Request::Read(UUID_HEIGHT)),
        Goal::Halt => put(Stage::Stopping, UUID_COMMAND, Payload::Stop),
        Goal::MoveTo(target) => if allowed(target) {
            (Stage::Measuring, Request::Read(UUID_HEIGHT))
        } else {
            give_up(DeskError::TargetOutOfRange)
        },
    }
}

/// How a task goes on. One that has finished has no use for a reply.
pub open spec fn following(goal: Goal, stage: Stage, reply: ReplyView) -> Step {
    match stage {
        Stage::Measuring => match (reading_in(reply), goal) {
            (Err(error), _) => give_up(error),
            (Ok(reading), Goal::MoveTo(target)) => if close(
                height_ticks(reading.height_raw),
                target.ticks(),
            ) {
                end(Outcome::Completed)
            } else {
                (Stage::ProbingDpg, Request::Probe(UUID_DPG))
            },
            (Ok(reading), _) => end(Outcome::Measured(reading)),
        },
        Stage::ProbingDpg => if reply is Present {
            put(Stage::OpeningDpg, UUID_DPG, Payload::DpgOpen)
        } else {
            wake()
        },
        Stage::OpeningDpg => put(Stage::SettingDpg, UUID_DPG, Payload::DpgSetup),
        Stage::SettingDpg => wake(),
        Stage::Waking => if_done(
            reply,
            UUID_COMMAND,
            if goal is MoveTo {
                put(Stage::Stopping, UUID_COMMAND, Payload::Stop)
            } else {
                end(Outcome::Completed)
            },
        ),
        Stage::Stopping => match goal {
            Goal::MoveTo(target) => if_done(reply, UUID_COMMAND, command(target)),
            _ => put(
                Stage::StoppingReference,
                UUID_REFERENCE_INPUT,
                Payload::ReferenceInputStop,
            ),
        },
        Stage::StoppingReference => end(Outcome::Completed),
        Stage::Commanding => if_done(
            reply,
            UUID_REFERENCE_INPUT,
            (Stage::Pausing, Request::Wait(POLL_INTERVAL)),
        ),
        Stage::Pausing => (Stage::Polling, Request::Read(UUID_HEIGHT)),
        Stage::Polling => match (reading_in(reply), goal) {
            (Err(error), _) => give_up(error),
            (Ok(reading), Goal::MoveTo(target)) if reading.speed_raw != 0 => command(target),
            _ => end(Outcome::Completed),
        },
        Stage::Finished => give_up(DeskError::Outside),
    }
}

/// Something that is being done with a desk.
#[derive(Clone, Copy, Debug, PartialEq, Eq, Structural)]
pub struct Task {
    pub goal: Goal,
    pub stage: Stage,
}

impl Task {
    /// A task on its way has an allowed target.
    pub open spec fn well_formed(self) -> bool {
        self.stage is Finished || (self.goal matches Goal::MoveTo(target) ==> allowed(target))
    }

    /// Begins a task.
    pub fn start(goal: Goal) -> (r: (Task, Request))
        ensures
            r.0.goal == goal,
            (r.0.stage, r.1) == opening(goal),
            r.0.well_formed(),
    {
        let (stage, request) = match goal {
            Goal::WakeUp => (Stage::ProbingDpg, Request::Probe(UUID_DPG)),
            Goal::Measure => (Stage::Measuring, Request::Read(UUID_HEIGHT)),
            Goal::Halt => (
                Stage::Stopping,
                Request::Write { characteristic: UUID_COMMAND, payload: Payload::Stop },
            ),
            Goal::MoveTo(target) => if is_allowed(target) {
                (Stage::Measuring, Request::Read(UUID_HEIGHT))
            } else {
                (
                    Stage::Finished,
                    Request::Finish(Outcome::GivenUp(DeskError::TargetOutOfRange)),
                )
            },
        };
        (Task { goal, stage }, request)
    }

    /// Goes on with a task after `reply`.
    pub fn advance(&mut self, reply: &Reply) -> (request: Request)
        requires
            old(self).well_formed(),
        ensures
            final(self).goal == old(self).goal,
            (final(self).stage, request) == following(old(self).goal, old(self).stage, reply@),
            final(self).well_formed(),
    {
        let (stage, request) = match self.stage {
            Stage::Measuring => match read_reply(reply) {
                Err(error) => Self::fail(error),
                Ok(reading) => match self.goal {
                    Goal::MoveTo(target) => if is_close(reading.height_raw, target) {
                        (Stage::Finished, Request::Finish(Outcome::Completed))
                    } else {
                        (Stage::ProbingDpg, Request::Probe(UUID_DPG))
                    },
                    _ => (Stage::Finished, Request::Finish(Outcome::Measured(reading))),
                },
            },
            Stage::ProbingDpg => match reply {
                Reply::Present => (
                    Stage::OpeningDpg,
                    Request::Write { characteristic: UUID_DPG, payload: Payload::DpgOpen },
                ),
                _ => Self::wake(),
            },
            Stage::OpeningDpg => (
                Stage::SettingDpg,
                Request::Write { characteristic: UUID_DPG, payload: Payload::DpgSetup },
            ),
            Stage::SettingDpg => Self::wake(),
            Stage::Waking => match write_reply(reply, UUID_COMMAND) {
                Err(error) => Self::fail(error),
                Ok(()) => match self.goal {
                    Goal::MoveTo(_) => (
                        Stage::Stopping,
                        Request::Write { characteristic: UUID_COMMAND, payload: Payload::Stop },
                    ),
                    _ => (Stage::Finished, Request::Finish(Outcome::Completed)),
                },
            },
            Stage::Stopping => match self.goal {
                Goal::MoveTo(target) => match write_reply(reply, UUID_COMMAND) {
                    Err(error) => Self::fail(error),
                    Ok(()) => Self::command(target),
                },
                _ => (
                    Stage::StoppingReference,
                    Request::Write {
                        characteristic: UUID_REFERENCE_INPUT,
                        payload: Payload::ReferenceInputStop,
                    },
                ),
            },
            Stage::StoppingReference => (Stage::Finished, Request::Finish(Outcome::Completed)),
            Stage::Commanding => match write_reply(reply, UUID_REFERENCE_INPUT) {
                Err(error) => Self::fail(error),
                Ok(()) => (Stage::Pausing, Request::Wait(POLL_INTERVAL)),
            },
            Stage::Pausing => (Stage::Polling, Request::Read(UUID_HEIGHT)),
            Stage::Polling => match read_reply(reply) {
                Err(error) => Self::fail(error),
                Ok(reading) => match self.goal {
                    Goal::MoveTo(target) => if reading.speed_raw != 0 {
                        Self::command(target)
                    } else {
                        (Stage::Finished, Request::Finish(Outcome::Completed))
                    },
                    _ => (Stage::Finished, Request::Finish(Outcome::Completed)),
                },
            },
            Stage::Finished => Self::fail(DeskError::Outside),
        };
        self.stage = stage;
        request
    }

    fn fail(error: DeskError) -> (r: (Stage, Request))
        ensures
            r == give_up(error),
    {
        (Stage::Finished, Request::Finish(Outcome::GivenUp(error)))
    }

    fn wake() -> (r: (Stage, Request))
        ensures
            r == wake(),
    {
        (
            Stage::Waking,
            Request::Write { characteristic: UUID_COMMAND, payload: Payload::WakeUp },
        )
    }

    fn command(target: Binary64) -> (r: (Stage, Request))
        requires
            allowed(target),
        ensures
            r == command(target),
    {
        (
            Stage::Commanding,
            Request::Write {
                characteristic: UUID_REFERENCE_INPUT,
                payload: Payload::MoveTo(target_raw(target)),
            },
        )
    }
}

/// What a reply to a write says.
fn write_reply(reply: &Reply, characteristic: u128) -> (r: Result<(), DeskError>)
    ensures
        forall|next: Step| #[trigger]
            if_done(reply@, characteristic, next) == match r {
                Ok(_) => next,
                Err(error) => give_up(error),
            },
{
    match reply {
        Reply::Done => Ok(()),
        Reply::Absent => Err(DeskError::CharacteristicMissing(characteristic)),
        _ => Err(DeskError::Outside),
    }
}

/// What a reply to a height request says.
fn read_reply(reply: &Reply) -> (r: Result<Reading, DeskError>)
    ensures
        r == reading_in(reply@),
{
    match reply {
        Reply::Data(bytes) => decode_reading(bytes.as_slice()),
        Reply::Absent => Err(DeskError::CharacteristicMissing(UUID_HEIGHT)),
        _ => Err(DeskError::Outside),
    }
}

} // verus!
