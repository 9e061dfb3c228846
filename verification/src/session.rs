//! Carrying out a command, from the command line to the exit.
//!
//! A [`Session`] decides what to say and what to do next. Whoever owns the terminal,
//! the disk and the radio prints the [`Notice`]s, performs the [`Effect`] and hands
//! back the [`Event`].
use vstd::prelude::*;

use crate::binary64::Binary64;
use crate::config::{characters, is_reserved, reserved, Config, ConfigView};
use crate::discover::DiscoveredDesk;
use crate::error::DeskError;
use crate::height::{decoded_height, decoded_speed};
use crate::motion::Goal;
use crate::wire::{decode_reading, reading_of, Reading, UUID_HEIGHT};

verus! {

/// What was asked for on the command line.
pub enum Command {
    /// To look for a desk and keep it in the configuration, even over an old one if
    /// `force` is set.
    Init { force: bool },
    /// To connect to the desk, to see whether that works.
    Pair,
    /// To follow the desk's height and speed.
    Monitor,
    /// To show the desk's height.
    Height,
    /// To show the desk's speed.
    Speed,
    /// To keep the desk's height under a name.
    Save { name: String },
    /// To forget the height with a name.
    Delete { name: String },
    /// To stop the desk.
    Stop,
    /// To move the desk to the position or the height that the first argument names;
    /// `parsed` is the number that this argument spells, if it spells one.
    MoveTo { arguments: Vec<String>, parsed: Option<Binary64> },
}

/// What a desk is connected for.
#[derive(Clone, Copy, Debug, PartialEq, Eq, Structural)]
pub enum Errand {
    Pair,
    Monitor,
    Height,
    Speed,
    Save,
    Stop,
    MoveTo(Binary64),
}

/// Something to tell the user.
#[derive(Clone, Copy, Debug, PartialEq, Eq, Structural)]
pub enum Notice {
    /// There already is a configuration.
    ConfigExists,
    /// A search begins.
    Scanning,
    /// The search found a desk.
    DeskFound,
    /// The search found no desk.
    NoDeskFound,
    /// The configuration is kept.
    ConfigSaved,
    /// A connection begins.
    Connecting,
    /// The desk is connected.
    Connected,
    /// The desk has this height.
    Height(Binary64),
    /// The desk has this speed.
    Speed(Binary64),
    /// The desk is being followed.
    Monitoring,
    /// The desk has this height and this speed.
    Sample(Binary64, Binary64),
    /// The name is one of the seven reserved names.
    ReservedName,
    /// This height is kept.
    PositionSaved(Binary64),
    /// The name is forgotten.
    PositionDeleted,
    /// There is no such name.
    PositionNotFound,
    /// The desk has stopped.
    DeskStopped,
    /// The argument names neither a position nor a height.
    UnknownTarget,
    /// There is no argument.
    MissingTarget,
    /// The desk begins to move to this height.
    Moving(Binary64),
    /// The desk has arrived.
    TargetReached,
}

impl Notice {
    /// Whether a notice is a complaint.
    pub open spec fn complains(self) -> bool {
        self is ConfigExists || self is NoDeskFound || self is ReservedName
            || self is PositionNotFound || self is UnknownTarget || self is MissingTarget
    }

    /// Whether a notice is a complaint, and goes where errors go.
    pub fn is_complaint(&self) -> (r: bool)
        ensures
            r == self.complains(),
    {
        match *self {
            Notice::ConfigExists
            | Notice::NoDeskFound
            | Notice::ReservedName
            | Notice::PositionNotFound
            | Notice::UnknownTarget
            | Notice::MissingTarget => true,
            _ => false,
        }
    }
}

/// Something to do.
#[derive(Clone, Copy, Debug, PartialEq, Eq)]
pub enum Effect {
    /// To find out whether there is a configuration file.
    CheckConfig,
    /// To look for a desk.
    Discover,
    /// To write the configuration file.
    StoreConfig,
    /// To connect to the desk of the session.
    Connect,
    /// To do something with the connected desk.
    Desk(Goal),
    /// To find out whether the desk has a characteristic.
    LookUp(u128),
    /// To have the desk report changes of a characteristic.
    Subscribe(u128),
    /// To wait for the next report.
    NextReport,
    /// To exit, with an error or without.
    Exit(Result<(), DeskError>),
}

/// What has come of it.
pub enum Event {
    /// Whether there is a configuration file.
    ConfigFile(bool),
    /// The desk that was found, if one was.
    Found(Option<DiscoveredDesk>),
    /// It has been done.
    Done,
    /// The desk has reported.
    Measured(Reading),
    /// Whether the desk has the characteristic.
    HasCharacteristic(bool),
    /// A characteristic has changed to these bytes.
    Report { characteristic: u128, value: Vec<u8> },
    /// There are no more reports.
    ReportsEnded,
    /// It could not be done.
    GaveUp(DeskError),
}

/// How far a session has come: what it is waiting for.
#[derive(Clone, Copy, Debug, PartialEq, Eq, Structural)]
pub enum SessionStage {
    /// Whether there is a configuration file.
    Checking,
    /// A desk to be found.
    Discovering,
    /// The configuration to be written, of which to notify then.
    Storing(Notice),
    /// The desk to be connected.
    Connecting(Errand),
    /// The desk to report.
    Measuring(Errand),
    /// Whether the desk reports its height.
    Probing,
    /// The desk to begin reporting.
    Subscribing,
    /// The next report.
    Watching,
    /// The desk to stop.
    Halting,
    /// The desk to arrive.
    Moving,
    /// Nothing.
    Finished,
}

/// What a session says and does next.
pub struct Step {
    pub notices: Vec<Notice>,
    pub effect: Effect,
}

/// What changes in a session, and what it says and does next.
pub ghost struct SessionStep {
    pub stage: SessionStage,
    pub config: ConfigView,
    pub found: Option<DiscoveredDesk>,
    pub notices: Seq<Notice>,
    pub effect: Effect,
}

/// The session goes on in `stage`, with the configuration `config` and the desk `found`.
pub open spec fn proceed(
    stage: SessionStage,
    config: ConfigView,
    found: Option<DiscoveredDesk>,
    notices: Seq<Notice>,
    effect: Effect,
) -> SessionStep {
    SessionStep { stage, config, found, notices, effect }
}

/// The session ends well, with the configuration `config` and the desk `found`.
pub open spec fn finish(
    config: ConfigView,
    found: Option<DiscoveredDesk>,
    notices: Seq<Notice>,
) -> SessionStep {
    proceed(SessionStage::Finished, config, found, notices, Effect::Exit(Ok(())))
}

/// The session ends with an error, with the configuration `config` and the desk `found`.
pub open spec fn abort(
    config: ConfigView,
    found: Option<DiscoveredDesk>,
    error: DeskError,
) -> SessionStep {
    proceed(SessionStage::Finished, config, found, seq![], Effect::Exit(Err(error)))
}

/// The session connects to the desk `device`.
pub open spec fn link(
    config: ConfigView,
    device: Option<Seq<char>>,
    errand: Errand,
) -> SessionStep {
    match device {
        Some(_) => proceed(
            SessionStage::Connecting(errand),
            config,
            None,
            if errand is Pair {
                seq![Notice::Connecting]
            } else {
                seq![]
            },
            Effect::Connect,
        ),
        None => abort(
            config,
            None,
            if errand is Pair {
                DeskError::DeviceIdMissingForPairing
            } else {
                DeskError::DeviceIdMissing
            },
        ),
    }
}

/// How a session begins, where `device` is the desk to use.
pub open spec fn session_opening(
    command: Command,
    config: ConfigView,
    device: Option<Seq<char>>,
) -> SessionStep {
    match command {
        Command::Init { .. } => proceed(
            SessionStage::Checking,
            config,
            None,
            seq![],
            Effect::CheckConfig,
        ),
        Command::Pair => link(config, device, Errand::Pair),
        Command::Monitor => link(config, device, Errand::Monitor),
        Command::Height => link(config, device, Errand::Height),
        Command::Speed => link(config, device, Errand::Speed),
        Command::Save { name } => if reserved(name@) {
            finish(config, None, seq![Notice::ReservedName])
        } else {
            link(config, device, Errand::Save)
        },
        Command::Delete { name } => if config.positions.contains_key(name@) {
            proceed(
                SessionStage::Storing(Notice::PositionDeleted),
                ConfigView { positions: config.positions.remove(name@), ..config },
                None,
                seq![],
                Effect::StoreConfig,
            )
        } else {
            finish(config, None, seq![Notice::PositionNotFound])
        },
        Command::Stop => link(config, device, Errand::Stop),
        Command::MoveTo { arguments, parsed } => if arguments@.len() == 0 {
            finish(config, None, seq![Notice::MissingTarget])
        } else {
            match config.target_for(arguments@[0]@, parsed) {
                Some(target) => link(config, device, Errand::MoveTo(target)),
                None => finish(config, None, seq![Notice::UnknownTarget]),
            }
        },
    }
}

/// What a session does with a connected desk.
pub open spec fn connected(
    config: ConfigView,
    found: Option<DiscoveredDesk>,
    errand: Errand,
) -> SessionStep {
    match errand {
        Errand::Pair => finish(config, found, seq![Notice::Connected]),
        Errand::Monitor => proceed(
            SessionStage::Probing,
            config,
            found,
            seq![],
            Effect::LookUp(UUID_HEIGHT),
        ),
        Errand::Height | Errand::Speed | Errand::Save => proceed(
            SessionStage::Measuring(errand),
            config,
            found,
            seq![],
            Effect::Desk(Goal::Measure),
        ),
        Errand::Stop => proceed(
            SessionStage::Halting,
            config,
            found,
            seq![],
            Effect::Desk(Goal::Halt),
        ),
        Errand::MoveTo(target) => proceed(
            SessionStage::Moving,
            config,
            found,
            seq![Notice::Moving(target)],
            Effect::Desk(Goal::MoveTo(target)),
        ),
    }
}

/// What a session does with a reading.
pub open spec fn measured(
    command: Command,
    config: ConfigView,
    found: Option<DiscoveredDesk>,
    errand: Errand,
    reading: Reading,
) -> SessionStep {
    let height = decoded_height(reading.height_raw);
    match (errand, command) {
        (Errand::Save, Command::Save { name }) => proceed(
            SessionStage::Storing(Notice::PositionSaved(height)),
            ConfigView { positions: config.positions.insert(name@, height), ..config },
            found,
            seq![],
            Effect::StoreConfig,
        ),
        (Errand::Speed, _) => finish(
            config,
            found,
            seq![Notice::Speed(decoded_speed(reading.speed_raw))],
        ),
        _ => finish(config, found, seq![Notice::Height(height)]),
    }
}

/// What a session says about a report: the height and the speed, if it has them.
pub open spec fn samples(characteristic: u128, value: Seq<u8>) -> Seq<Notice> {
    match reading_of(value) {
        Some(reading) if characteristic == UUID_HEIGHT => seq![
            Notice::Sample(
                decoded_height(reading.height_raw),
                decoded_speed(reading.speed_raw),
            ),
        ],
        _ => seq![],
    }
}

/// How a session goes on after `event`. One that it was not waiting for ends it with an
/// error.
pub open spec fn session_following(
    command: Command,
    stage: SessionStage,
    config: ConfigView,
    found: Option<DiscoveredDesk>,
    event: Event,
) -> SessionStep {
    match (stage, event) {
        (_, Event::GaveUp(error)) => abort(config, found, error),
        (SessionStage::Checking, Event::ConfigFile(exists)) => if exists && !(command
            matches Command::Init { force } && force) {
            finish(config, found, seq![Notice::ConfigExists])
        } else {
            proceed(
                SessionStage::Discovering,
                config,
                found,
                seq![Notice::Scanning],
                Effect::Discover,
            )
        },
        (SessionStage::Discovering, Event::Found(Some(desk))) => proceed(
            SessionStage::Storing(Notice::ConfigSaved),
            ConfigView { device_id: Some(desk.device_id@), mac_address: None, ..config },
            Some(desk),
            seq![Notice::DeskFound],
            Effect::StoreConfig,
        ),
        (SessionStage::Discovering, Event::Found(None)) => proceed(
            SessionStage::Storing(Notice::ConfigSaved),
            config,
            found,
            seq![Notice::NoDeskFound],
            Effect::StoreConfig,
        ),
        (SessionStage::Storing(notice), Event::Done) => finish(config, found, seq![notice]),
        (SessionStage::Connecting(errand), Event::Done) => connected(config, found, errand),
        (SessionStage::Measuring(errand), Event::Measured(reading)) => measured(
            command,
            config,
            found,
            errand,
            reading,
        ),
        (SessionStage::Probing, Event::HasCharacteristic(has)) => if has {
            proceed(
                SessionStage::Subscribing,
                config,
                found,
                seq![Notice::Monitoring],
                Effect::Subscribe(UUID_HEIGHT),
            )
        } else {
            abort(config, found, DeskError::CharacteristicMissing(UUID_HEIGHT))
        },
        (SessionStage::Subscribing, Event::Done) => proceed(
            SessionStage::Watching,
            config,
            found,
            seq![],
            Effect::NextReport,
        ),
        (SessionStage::Watching, Event::Report { characteristic, value }) => proceed(
            SessionStage::Watching,
            config,
            found,
            samples(characteristic, value@),
            Effect::NextReport,
        ),
        (SessionStage::Watching, Event::ReportsEnded) => finish(config, found, seq![]),
        (SessionStage::Halting, Event::Done) => finish(config, found, seq![Notice::DeskStopped]),
        (SessionStage::Moving, Event::Done) => finish(config, found, seq![Notice::TargetReached]),
        _ => abort(config, found, DeskError::Outside),
    }
}

/// A command on its way.
pub struct Session {
    pub command: Command,
    pub config: Config,
    /// The desk to use.
    pub device_id: Option<String>,
    /// The desk that was found.
    pub found: Option<DiscoveredDesk>,
    pub stage: SessionStage,
}

impl Session {
    /// The configuration is well-formed, and a desk that is being connected has a name.
    pub open spec fn well_formed(self) -> bool {
        &&& self.config.well_formed()
        &&& self.stage is Connecting ==> self.device_id is Some
    }

    /// Whether `step` is what the session has come to, and says and does next.
    pub open spec fn stands_at(self, notices: Seq<Notice>, effect: Effect, step: SessionStep) -> bool {
        &&& self.stage == step.stage
        &&& self.config@ == step.config
        &&& self.found == step.found
        &&& notices =~= step.notices
        &&& effect == step.effect
    }

    /// Begins to carry out `command`, where `asked` says which desk was asked for on
    /// the command line.
    pub fn start(command: Command, config: Config, asked: Option<String>) -> (r: (Session, Step))
        requires
            config.well_formed(),
        ensures
            r.0.well_formed(),
            r.0.command == command,
            characters(r.0.device_id) == if asked is Some {
                characters(asked)
            } else {
                config@.effective_device()
            },
            r.0.stands_at(
                r.1.notices@,
                r.1.effect,
                session_opening(command, config@, characters(r.0.device_id)),
            ),
    {
        let device_id: Option<String> = config.resolve_device(asked);
        let mut session: Session = Session {
            command,
            config,
            device_id,
            found: None,
            stage: SessionStage::Finished,
        };
        let step: Step = session.open();
        (session, step)
    }

    fn open(&mut self) -> (step: Step)
        requires
            old(self).config.well_formed(),
            old(self).found is None,
        ensures
            final(self).well_formed(),
            final(self).command == old(self).command,
            final(self).device_id == old(self).device_id,
            final(self).stands_at(
                step.notices@,
                step.effect,
                session_opening(
                    old(self).command,
                    old(self).config@,
                    characters(old(self).device_id),
                ),
            ),
    {
        match &self.command {
            Command::Init { .. } => {
                self.stage = SessionStage::Checking;
                Step { notices: vec![], effect: Effect::CheckConfig }
            },
            Command::Pair => self.link(Errand::Pair),
            Command::Monitor => self.link(Errand::Monitor),
            Command::Height => self.link(Errand::Height),
            Command::Speed => self.link(Errand::Speed),
            Command::Save { name } => if is_reserved(name.as_str()) {
                self.finish(vec![Notice::ReservedName])
            } else {
                self.link(Errand::Save)
            },
            Command::Delete { name } => if self.config.positions.remove(name.as_str()) {
                self.stage = SessionStage::Storing(Notice::PositionDeleted);
                Step { notices: vec![], effect: Effect::StoreConfig }
            } else {
                assert(self.config@.positions =~= old(self).config@.positions);
                self.finish(vec![Notice::PositionNotFound])
            },
            Command::Stop => self.link(Errand::Stop),
            Command::MoveTo { arguments, parsed } => if arguments.len() == 0 {
                self.finish(vec![Notice::MissingTarget])
            } else {
                match self.config.find_target(arguments[0].as_str(), *parsed) {
                    Some(target) => self.link(Errand::MoveTo(target)),
                    None => self.finish(vec![Notice::UnknownTarget]),
                }
            },
        }
    }

    /// Goes on after `event`.
    pub fn advance(&mut self, event: Event) -> (step: Step)
        requires
            old(self).well_formed(),
        ensures
            final(self).well_formed(),
            final(self).command == old(self).command,
            final(self).device_id == old(self).device_id,
            final(self).stands_at(
                step.notices@,
                step.effect,
                session_following(
                    old(self).command,
                    old(self).stage,
                    old(self).config@,
                    old(self).found,
                    event,
                ),
            ),
    {
        match (self.stage, event) {
            (_, Event::GaveUp(error)) => self.abort(error),
            (SessionStage::Checking, Event::ConfigFile(exists)) => {
                let force: bool = match &self.command {
                    Command::Init { force } => *force,
                    _ => false,
                };
                if exists && !force {
                    self.finish(vec![Notice::ConfigExists])
                } else {
                    self.stage = SessionStage::Discovering;
                    Step { notices: vec![Notice::Scanning], effect: Effect::Discover }
                }
            },
            (SessionStage::Discovering, Event::Found(Some(desk))) => {
                self.config.adopt(desk.device_id.clone());
                self.found = Some(desk);
                self.stage = SessionStage::Storing(Notice::ConfigSaved);
                Step { notices: vec![Notice::DeskFound], effect: Effect::StoreConfig }
            },
            (SessionStage::Discovering, Event::Found(None)) => {
                self.stage = SessionStage::Storing(Notice::ConfigSaved);
                Step { notices: vec![Notice::NoDeskFound], effect: Effect::StoreConfig }
            },
            (SessionStage::Storing(notice), Event::Done) => self.finish(vec![notice]),
            (SessionStage::Connecting(errand), Event::Done) => self.connected(errand),
            (SessionStage::Measuring(errand), Event::Measured(reading)) => self.measured(
                errand,
                reading,
            ),
            (SessionStage::Probing, Event::HasCharacteristic(has)) => if has {
                self.stage = SessionStage::Subscribing;
                Step { notices: vec![Notice::Monitoring], effect: Effect::Subscribe(UUID_HEIGHT) }
            } else {
                self.abort(DeskError::CharacteristicMissing(UUID_HEIGHT))
            },
            (SessionStage::Subscribing, Event::Done) => {
                self.stage = SessionStage::Watching;
                Step { notices: vec![], effect: Effect::NextReport }
            },
            (SessionStage::Watching, Event::Report { characteristic, value }) => Step {
                notices: Self::sample(characteristic, &value),
                effect: Effect::NextReport,
            },
            (SessionStage::Watching, Event::ReportsEnded) => self.finish(vec![]),
            (SessionStage::Halting, Event::Done) => self.finish(vec![Notice::DeskStopped]),
            (SessionStage::Moving, Event::Done) => self.finish(vec![Notice::TargetReached]),
            _ => self.abort(DeskError::Outside),
        }
    }

    fn finish(&mut self, notices: Vec<Notice>) -> (step: Step)
        ensures
            final(self).command == old(self).command,
            final(self).device_id == old(self).device_id,
            final(self).config == old(self).config,
            final(self).stands_at(
                step.notices@,
                step.effect,
                finish(old(self).config@, old(self).found, notices@),
            ),
    {
        self.stage = SessionStage::Finished;
        Step { notices, effect: Effect::Exit(Ok(())) }
    }

    fn abort(&mut self, error: DeskError) -> (step: Step)
        ensures
            final(self).command == old(self).command,
            final(self).device_id == old(self).device_id,
            final(self).config == old(self).config,
            final(self).stands_at(
                step.notices@,
                step.effect,
                abort(old(self).config@, old(self).found, error),
            ),
    {
        self.stage = SessionStage::Finished;
        Step { notices: vec![], effect: Effect::Exit(Err(error)) }
    }

    fn link(&mut self, errand: Errand) -> (step: Step)
        requires
            old(self).found is None,
        ensures
            final(self).command == old(self).command,
            final(self).device_id == old(self).device_id,
            final(self).config == old(self).config,
            final(self).stage is Connecting ==> final(self).device_id is Some,
            final(self).stands_at(
                step.notices@,
                step.effect,
                link(old(self).config@, characters(old(self).device_id), errand),
            ),
    {
        if self.device_id.is_none() {
            return match errand {
                Errand::Pair => self.abort(DeskError::DeviceIdMissingForPairing),
                _ => self.abort(DeskError::DeviceIdMissing),
            };
        }
        self.stage = SessionStage::Connecting(errand);
        let notices: Vec<Notice> = match errand {
            Errand::Pair => vec![Notice::Connecting],
            _ => vec![],
        };
        Step { notices, effect: Effect::Connect }
    }

    fn connected(&mut self, errand: Errand) -> (step: Step)
        ensures
            final(self).command == old(self).command,
            final(self).device_id == old(self).device_id,
            final(self).config == old(self).config,
            !(final(self).stage is Connecting),
            final(self).stands_at(
                step.notices@,
                step.effect,
                connected(old(self).config@, old(self).found, errand),
            ),
    {
        match errand {
            Errand::Pair => self.finish(vec![Notice::Connected]),
            Errand::Monitor => {
                self.stage = SessionStage::Probing;
                Step { notices: vec![], effect: Effect::LookUp(UUID_HEIGHT) }
            },
            Errand::Height | Errand::Speed | Errand::Save => {
                self.stage = SessionStage::Measuring(errand);
                Step { notices: vec![], effect: Effect::Desk(Goal::Measure) }
            },
            Errand::Stop => {
                self.stage = SessionStage::Halting;
                Step { notices: vec![], effect: Effect::Desk(Goal::Halt) }
            },
            Errand::MoveTo(target) => {
                self.stage = SessionStage::Moving;
                Step {
                    notices: vec![Notice::Moving(target)],
                    effect: Effect::Desk(Goal::MoveTo(target)),
                }
            },
        }
    }

    fn measured(&mut self, errand: Errand, reading: Reading) -> (step: Step)
        requires
            old(self).config.well_formed(),
        ensures
            final(self).config.well_formed(),
            final(self).command == old(self).command,
            final(self).device_id == old(self).device_id,
            !(final(self).stage is Connecting),
            final(self).stands_at(
                step.notices@,
                step.effect,
                measured(
                    old(self).command,
                    old(self).config@,
                    old(self).found,
                    errand,
                    reading,
                ),
            ),
    {
        let height: Binary64 = reading.height();
        match (errand, &self.command) {
            (Errand::Save, Command::Save { name }) => {
                self.config.positions.insert(name.clone(), height);
                self.stage = SessionStage::Storing(Notice::PositionSaved(height));
                Step { notices: vec![], effect: Effect::StoreConfig }
            },
            (Errand::Speed, _) => self.finish(vec![Notice::Speed(reading.speed())]),
            _ => self.finish(vec![Notice::Height(height)]),
        }
    }

    fn sample(characteristic: u128, value: &Vec<u8>) -> (notices: Vec<Notice>)
        ensures
            notices@ == samples(characteristic, value@),
    {
        if characteristic != UUID_HEIGHT {
            return vec![];
        }
        match decode_reading(value.as_slice()) {
            Ok(reading) => vec![Notice::Sample(reading.height(), reading.speed())],
            Err(_) => vec![],
        }
    }
}

} // verus!
