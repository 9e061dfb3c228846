//! What holds of a session whatever happens outside.
use vstd::prelude::*;

use crate::binary64::Binary64;
use crate::config::{law_seven_names_are_reserved, reserved, ConfigView};
use crate::discover::DiscoveredDesk;
use crate::error::DeskError;
use crate::height::{
    allowed, decoded_height, decoded_speed, law_allowed_reports,
    law_reported_height_names_its_number, raw_of,
};
use crate::motion::Goal;
use crate::session::{
    abort, finish, session_following, session_opening, Command, Effect, Errand, Event, Notice,
    Session, SessionStage, SessionStep,
};
use crate::wire::{law_report_is_read_byte_by_byte, Reading, UUID_HEIGHT};

verus! {

/// Where a session stands after `events`. A session that has ended is told nothing more
/// and stays as it is.
pub open spec fn session_after(
    command: Command,
    config: ConfigView,
    device: Option<Seq<char>>,
    events: Seq<Event>,
) -> SessionStep
    decreases events.len(),
{
    if events.len() == 0 {
        session_opening(command, config, device)
    } else {
        let before = session_after(command, config, device, events.drop_last());
        if before.stage is Finished {
            before
        } else {
            session_following(command, before.stage, before.config, before.found, events.last())
        }
    }
}

/// What a command needs a desk for, if it needs one.
pub open spec fn errand_of(command: Command, config: ConfigView) -> Option<Errand> {
    match command {
        Command::Init { .. } | Command::Delete { .. } => None,
        Command::Pair => Some(Errand::Pair),
        Command::Monitor => Some(Errand::Monitor),
        Command::Height => Some(Errand::Height),
        Command::Speed => Some(Errand::Speed),
        Command::Save { name } => if reserved(name@) {
            None
        } else {
            Some(Errand::Save)
        },
        Command::Stop => Some(Errand::Stop),
        Command::MoveTo { arguments, parsed } => if arguments@.len() == 0 {
            None
        } else {
            match config.target_for(arguments@[0]@, parsed) {
                Some(target) => Some(Errand::MoveTo(target)),
                None => None,
            }
        },
    }
}

/// What the stage of a session says about its command.
proof fn lemma_stage_fits_command(
    command: Command,
    config: ConfigView,
    device: Option<Seq<char>>,
    events: Seq<Event>,
)
    ensures
        ({
            let s = session_after(command, config, device, events);
            &&& match s.stage {
                SessionStage::Checking => command is Init && s.config == config,
                SessionStage::Discovering => command is Init && s.config == config && s.effect
                    == Effect::Discover,
                SessionStage::Storing(_) => (command is Init || command is Save || command is Delete)
                    && s.effect == Effect::StoreConfig,
                SessionStage::Connecting(errand) => errand_of(command, config) == Some(errand)
                    && device is Some && s.config == config,
                SessionStage::Measuring(errand) => errand_of(command, config) == Some(errand)
                    && device is Some && s.config == config && s.effect == Effect::Desk(
                    Goal::Measure,
                ) && (errand is Height || errand is Speed || errand is Save),
                SessionStage::Probing
                | SessionStage::Subscribing
                | SessionStage::Watching => command is Monitor,
                SessionStage::Halting => command is Stop && s.effect == Effect::Desk(Goal::Halt),
                SessionStage::Moving => errand_of(command, config) matches Some(Errand::MoveTo(target))
                    && s.effect == Effect::Desk(Goal::MoveTo(target)),
                SessionStage::Finished => s.effect is Exit,
            }
            &&& s.effect == Effect::StoreConfig ==> s.stage is Storing
            &&& s.effect == Effect::Connect ==> s.stage is Connecting
            &&& s.effect is Desk ==> s.stage is Measuring || s.stage is Halting || s.stage is Moving
        }),
    decreases events.len(),
{
    if events.len() > 0 {
        lemma_stage_fits_command(command, config, device, events.drop_last());
    }
}

/// A desk moves only where the user asked for it, and only to the height asked for;
/// it is stopped only where the user asked for that.
pub proof fn law_desk_moves_only_on_request(
    command: Command,
    config: ConfigView,
    device: Option<Seq<char>>,
    events: Seq<Event>,
)
    ensures
        session_after(command, config, device, events).effect matches Effect::Desk(goal) ==> {
            &&& goal matches Goal::MoveTo(target) ==> {
                &&& command matches Command::MoveTo { arguments, parsed }
                &&& arguments@.len() > 0
                &&& config.target_for(arguments@[0]@, parsed) == Some(target)
            }
            &&& goal is Halt ==> command is Stop
            &&& !(goal is WakeUp)
        },
{
    lemma_stage_fits_command(command, config, device, events);
}

/// No desk is connected to unless one is known, and none where the command has no
/// use for one.
pub proof fn law_desk_is_connected_only_when_needed(
    command: Command,
    config: ConfigView,
    device: Option<Seq<char>>,
    events: Seq<Event>,
)
    requires
        session_after(command, config, device, events).effect == Effect::Connect,
    ensures
        device is Some,
        errand_of(command, config) is Some,
{
    lemma_stage_fits_command(command, config, device, events);
}

/// A session that has ended stays as it is.
proof fn lemma_ended_at_once(
    command: Command,
    config: ConfigView,
    device: Option<Seq<char>>,
    events: Seq<Event>,
)
    requires
        session_opening(command, config, device).stage is Finished,
    ensures
        session_after(command, config, device, events) == session_opening(command, config, device),
    decreases events.len(),
{
    if events.len() > 0 {
        lemma_ended_at_once(command, config, device, events.drop_last());
    }
}

/// Without a known desk, a command that needs one exits with an error, and does
/// nothing else.
pub proof fn law_unknown_desk_is_an_error(
    command: Command,
    config: ConfigView,
    events: Seq<Event>,
)
    requires
        errand_of(command, config) is Some,
    ensures
        session_after(command, config, None, events) == abort(
            config,
            None,
            if command is Pair {
                DeskError::DeviceIdMissingForPairing
            } else {
                DeskError::DeviceIdMissing
            },
        ),
{
    lemma_ended_at_once(command, config, None, events);
}

/// No position gets one of the seven reserved names: such a request does nothing but
/// complain.
pub proof fn law_reserved_names_are_refused(
    name: String,
    config: ConfigView,
    device: Option<Seq<char>>,
    events: Seq<Event>,
)
    requires
        reserved(name@),
    ensures
        session_after(Command::Save { name }, config, device, events) == finish(
            config,
            None,
            seq![Notice::ReservedName],
        ),
{
    lemma_ended_at_once(Command::Save { name }, config, device, events);
}

/// Only the commands that are there for it change or write the configuration.
pub proof fn law_other_commands_keep_the_config(
    command: Command,
    config: ConfigView,
    device: Option<Seq<char>>,
    events: Seq<Event>,
)
    requires
        !(command is Init || command is Save || command is Delete),
    ensures
        session_after(command, config, device, events).config == config,
        session_after(command, config, device, events).effect != Effect::StoreConfig,
    decreases events.len(),
{
    lemma_stage_fits_command(command, config, device, events);
    if events.len() > 0 {
        lemma_stage_fits_command(command, config, device, events.drop_last());
        law_other_commands_keep_the_config(command, config, device, events.drop_last());
    }
}

/// What is written is what changed: wherever a session has the configuration written,
/// it is the old one with the found desk in it, or with one name set, or with one
/// name dropped. A search that finds nothing writes the old one.
pub proof fn law_written_config_differs_as_asked(
    command: Command,
    config: ConfigView,
    device: Option<Seq<char>>,
    events: Seq<Event>,
)
    requires
        session_after(command, config, device, events).effect == Effect::StoreConfig,
    ensures
        ({
            let s = session_after(command, config, device, events);
            match command {
                Command::Init { .. } => match s.found {
                    Some(desk) => s.config == (ConfigView {
                        device_id: Some(desk.device_id@),
                        mac_address: None,
                        ..config
                    }),
                    None => s.config == config,
                },
                Command::Save { name } => {
                    &&& !reserved(name@)
                    &&& s.stage matches SessionStage::Storing(Notice::PositionSaved(height))
                    &&& s.config == (ConfigView {
                        positions: config.positions.insert(name@, height),
                        ..config
                    })
                },
                Command::Delete { name } => {
                    &&& config.positions.contains_key(name@)
                    &&& s.config == (ConfigView {
                        positions: config.positions.remove(name@),
                        ..config
                    })
                },
                _ => false,
            }
        }),
    decreases events.len(),
{
    lemma_stage_fits_command(command, config, device, events);
    if events.len() > 0 {
        let prior = events.drop_last();
        lemma_stage_fits_command(command, config, device, prior);
        lemma_nothing_found_yet(command, config, device, prior);
    }
}

/// Before a search has ended there is nothing found.
proof fn lemma_nothing_found_yet(
    command: Command,
    config: ConfigView,
    device: Option<Seq<char>>,
    events: Seq<Event>,
)
    ensures
        ({
            let s = session_after(command, config, device, events);
            s.stage is Storing || s.stage is Finished || s.found is None
        }),
    decreases events.len(),
{
    if events.len() > 0 {
        lemma_nothing_found_yet(command, config, device, events.drop_last());
    }
}

/// How a session goes on after two events.
proof fn lemma_two_events(
    command: Command,
    config: ConfigView,
    device: Option<Seq<char>>,
    first: Event,
    second: Event,
)
    ensures
        ({
            let a = session_opening(command, config, device);
            let b = session_following(command, a.stage, a.config, a.found, first);
            &&& !(a.stage is Finished) ==> session_after(command, config, device, seq![first]) == b
            &&& !(a.stage is Finished) && !(b.stage is Finished) ==> session_after(
                command,
                config,
                device,
                seq![first, second],
            ) == session_following(command, b.stage, b.config, b.found, second)
        }),
{
    assert(seq![first].drop_last() =~= Seq::<Event>::empty());
    assert(seq![first, second].drop_last() =~= seq![first]);
    assert(session_after(command, config, device, Seq::<Event>::empty()) == session_opening(
        command,
        config,
        device,
    ));
}

/// What is saved is found again: once the height of a connected desk is saved under a
/// name, a request to move there connects to the desk in order to move it to just
/// that height, and every other name means what it meant before.
pub proof fn law_saved_position_is_moved_to(
    name: String,
    config: ConfigView,
    device: Seq<char>,
    reading: Reading,
    arguments: Vec<String>,
    parsed: Option<Binary64>,
    other: Seq<char>,
)
    requires
        !reserved(name@),
        arguments@.len() > 0,
        arguments@[0]@ == name@,
        other != name@,
    ensures
        ({
            let s = session_after(
                Command::Save { name },
                config,
                Some(device),
                seq![Event::Done, Event::Measured(reading)],
            );
            let target = decoded_height(reading.height_raw);
            &&& s.effect == Effect::StoreConfig
            &&& session_opening(
                Command::MoveTo { arguments, parsed },
                s.config,
                Some(device),
            ).stage == SessionStage::Connecting(Errand::MoveTo(target))
            &&& s.config.target_for(other, parsed) == config.target_for(other, parsed)
            &&& s.config.effective_device() == config.effective_device()
        }),
{
    lemma_two_events(
        Command::Save { name },
        config,
        Some(device),
        Event::Done,
        Event::Measured(reading),
    );
}

/// A saved position can be moved to exactly where the desk reported at most 6500; the
/// desk is then given the number that it had reported, or the one below it.
pub proof fn law_saved_position_is_reached(reading: Reading)
    ensures
        ({
            let target = decoded_height(reading.height_raw);
            &&& allowed(target) <==> reading.height_raw <= 6500
            &&& allowed(target) ==> raw_of(target) <= reading.height_raw <= raw_of(target) + 1
        }),
{
    law_allowed_reports(reading.height_raw);
    if reading.height_raw <= 6500 {
        law_reported_height_names_its_number(reading.height_raw);
    }
}

/// What is deleted is gone: the name then means the number that it spells, if any,
/// and every other name means what it meant before. Deleting a name that is not
/// there changes nothing and writes nothing.
pub proof fn law_deleted_position_is_gone(
    name: String,
    config: ConfigView,
    device: Option<Seq<char>>,
    parsed: Option<Binary64>,
    other: Seq<char>,
)
    requires
        other != name@,
    ensures
        ({
            let s = session_opening(Command::Delete { name }, config, device);
            &&& s.config.target_for(name@, parsed) == parsed
            &&& s.config.target_for(other, parsed) == config.target_for(other, parsed)
            &&& !config.positions.contains_key(name@) ==> s == finish(
                config,
                None,
                seq![Notice::PositionNotFound],
            )
        }),
{
}

/// A fresh search keeps what it finds: afterwards the found desk is the one to use,
/// no older entry is left, and the positions are as before.
pub proof fn law_init_keeps_the_found_desk(
    force: bool,
    config: ConfigView,
    device: Option<Seq<char>>,
    exists: bool,
    desk: DiscoveredDesk,
)
    requires
        exists ==> force,
    ensures
        ({
            let s = session_after(
                Command::Init { force },
                config,
                device,
                seq![Event::ConfigFile(exists), Event::Found(Some(desk))],
            );
            &&& s.effect == Effect::StoreConfig
            &&& s.config.effective_device() == Some(desk.device_id@)
            &&& s.config.mac_address is None
            &&& s.config.positions == config.positions
            &&& s.found == Some(desk)
        }),
{
    lemma_two_events(
        Command::Init { force },
        config,
        device,
        Event::ConfigFile(exists),
        Event::Found(Some(desk)),
    );
}

/// An existing configuration is left alone, unless the user insists.
pub proof fn law_existing_config_is_left_alone(
    config: ConfigView,
    device: Option<Seq<char>>,
    events: Seq<Event>,
)
    requires
        events.len() > 0,
        events[0] == Event::ConfigFile(true),
    ensures
        session_after(Command::Init { force: false }, config, device, events) == finish(
            config,
            None,
            seq![Notice::ConfigExists],
        ),
    decreases events.len(),
{
    let prior = events.drop_last();
    if prior.len() > 0 {
        assert(prior[0] == events[0]);
        law_existing_config_is_left_alone(config, device, prior);
    } else {
        let command = Command::Init { force: false };
        assert(events.last() == events[0]);
        assert(session_after(command, config, device, prior) == session_opening(
            command,
            config,
            device,
        ));
    }
}

/// Something that could not be done ends the session with that error.
pub proof fn law_failure_is_reported(
    command: Command,
    stage: SessionStage,
    config: ConfigView,
    found: Option<DiscoveredDesk>,
    error: DeskError,
)
    ensures
        session_following(command, stage, config, found, Event::GaveUp(error)).effect
            == Effect::Exit(Err(error)),
        session_following(command, stage, config, found, Event::GaveUp(error)).config == config,
{
}

/// Following a desk: a report of its height in four bytes is shown, any other report
/// is passed over, and neither ends the session.
pub proof fn law_monitoring_shows_height_reports(
    command: Command,
    config: ConfigView,
    found: Option<DiscoveredDesk>,
    characteristic: u128,
    value: Vec<u8>,
)
    ensures
        ({
            let s = session_following(
                command,
                SessionStage::Watching,
                config,
                found,
                Event::Report { characteristic, value },
            );
            &&& s.stage is Watching
            &&& s.effect == Effect::NextReport
            &&& s.notices.len() == if characteristic == UUID_HEIGHT && value@.len() == 4 {
                1nat
            } else {
                0nat
            }
        }),
{
}

/// What the stage of a session says about what it does, and about what came before.
proof fn lemma_stage_fits_effect(
    command: Command,
    config: ConfigView,
    device: Option<Seq<char>>,
    events: Seq<Event>,
)
    ensures
        ({
            let s = session_after(command, config, device, events);
            match s.stage {
                SessionStage::Checking => command is Init && s.effect == Effect::CheckConfig
                    && s.found is None,
                SessionStage::Discovering => command is Init && s.effect == Effect::Discover
                    && s.found is None,
                SessionStage::Storing(notice) => s.effect == Effect::StoreConfig && match command {
                    Command::Init { .. } => notice == Notice::ConfigSaved,
                    Command::Delete { .. } => notice == Notice::PositionDeleted,
                    Command::Save { .. } => {
                        &&& events.len() > 0
                        &&& events.last() matches Event::Measured(reading)
                        &&& notice == Notice::PositionSaved(decoded_height(reading.height_raw))
                    },
                    _ => false,
                },
                SessionStage::Connecting(_) => s.effect == Effect::Connect,
                SessionStage::Measuring(_) => s.effect == Effect::Desk(Goal::Measure),
                SessionStage::Probing => s.effect == Effect::LookUp(UUID_HEIGHT),
                SessionStage::Subscribing => s.effect == Effect::Subscribe(UUID_HEIGHT),
                SessionStage::Watching => s.effect == Effect::NextReport,
                SessionStage::Halting => s.effect == Effect::Desk(Goal::Halt),
                SessionStage::Moving => s.effect matches Effect::Desk(goal) && goal is MoveTo,
                SessionStage::Finished => s.effect is Exit,
            }
        }),
    decreases events.len(),
{
    lemma_stage_fits_command(command, config, device, events);
    if events.len() > 0 {
        lemma_stage_fits_command(command, config, device, events.drop_last());
        lemma_stage_fits_effect(command, config, device, events.drop_last());
    }
}

/// What is known of a session and of its last two moments.
proof fn lemma_next_event(
    command: Command,
    config: ConfigView,
    device: Option<Seq<char>>,
    events: Seq<Event>,
    event: Event,
)
    ensures
        ({
            let s = session_after(command, config, device, events);
            let t = session_after(command, config, device, events.push(event));
            t == if s.stage is Finished {
                s
            } else {
                session_following(command, s.stage, s.config, s.found, event)
            }
        }),
{
    lemma_stage_fits_command(command, config, device, events);
    lemma_stage_fits_effect(command, config, device, events);
    assert(events.push(event).drop_last() =~= events);
}

/// How commands that need a desk begin: a desk that is known is connected, of which
/// only pairing tells; without one there is an error, which is another one for pairing.
pub proof fn law_desk_commands_begin(
    command: Command,
    config: ConfigView,
    device: Option<Seq<char>>,
)
    requires
        command is Pair || command is Monitor || command is Height || command is Speed || command
            is Stop,
    ensures
        ({
            let s = session_after(command, config, device, seq![]);
            &&& s.config == config
            &&& device is Some ==> s.effect == Effect::Connect && s.notices == if command is Pair {
                seq![Notice::Connecting]
            } else {
                seq![]
            }
            &&& device is None ==> s.notices.len() == 0 && s.effect == Effect::Exit(
                Err(
                    if command is Pair {
                        DeskError::DeviceIdMissingForPairing
                    } else {
                        DeskError::DeviceIdMissing
                    },
                ),
            )
        }),
{
    assert(session_after(command, config, device, seq![]) == session_opening(
        command,
        config,
        device,
    ));
}

/// How a name is saved: a reserved name is refused; for any other one the desk is
/// connected, if it is known.
pub proof fn law_saving_begins(name: String, config: ConfigView, device: Option<Seq<char>>)
    ensures
        ({
            let s = session_after(Command::Save { name }, config, device, seq![]);
            let refused = seq![
                "init"@,
                "pair"@,
                "monitor"@,
                "height"@,
                "speed"@,
                "save"@,
                "delete"@,
            ].contains(name@);
            &&& s.config == config
            &&& refused ==> s.effect == Effect::Exit(Ok(())) && s.notices == seq![
                Notice::ReservedName,
            ]
            &&& !refused && device is Some ==> s.effect == Effect::Connect && s.notices.len() == 0
            &&& !refused && device is None ==> s.notices.len() == 0 && s.effect == Effect::Exit(
                Err(DeskError::DeviceIdMissing),
            )
        }),
{
    law_seven_names_are_reserved(name@);
    let command = Command::Save { name };
    assert(session_after(command, config, device, seq![]) == session_opening(
        command,
        config,
        device,
    ));
}

/// How a movement begins: without an argument, and with one that names neither a
/// position nor a number, there is a complaint; otherwise the desk is connected, if it
/// is known.
pub proof fn law_moving_begins(
    arguments: Vec<String>,
    parsed: Option<Binary64>,
    config: ConfigView,
    device: Option<Seq<char>>,
)
    ensures
        ({
            let s = session_after(Command::MoveTo { arguments, parsed }, config, device, seq![]);
            let named = config.positions.contains_key(arguments@[0]@) || parsed is Some;
            &&& s.config == config
            &&& arguments@.len() == 0 ==> s.effect == Effect::Exit(Ok(())) && s.notices == seq![
                Notice::MissingTarget,
            ]
            &&& arguments@.len() > 0 && !named ==> s.effect == Effect::Exit(Ok(())) && s.notices
                == seq![Notice::UnknownTarget]
            &&& arguments@.len() > 0 && named && device is Some ==> s.effect == Effect::Connect
                && s.notices.len() == 0
            &&& arguments@.len() > 0 && named && device is None ==> s.notices.len() == 0 && s.effect
                == Effect::Exit(Err(DeskError::DeviceIdMissing))
        }),
{
    let command = Command::MoveTo { arguments, parsed };
    assert(session_after(command, config, device, seq![]) == session_opening(
        command,
        config,
        device,
    ));
}

/// What a connected desk is used for is what the command was: pairing is over; a desk
/// is measured to show or to save where it is, stopped to stop it, looked up for its
/// height to follow it, and moved to the height that the argument names, by position
/// before by number, of which the user is told at once.
pub proof fn law_connected_desk_serves_its_command(
    command: Command,
    config: ConfigView,
    device: Option<Seq<char>>,
    events: Seq<Event>,
)
    requires
        session_after(command, config, device, events).effect == Effect::Connect,
    ensures
        ({
            let t = session_after(command, config, device, events.push(Event::Done));
            &&& t.config == config
            &&& match command {
                Command::Pair => t.effect == Effect::Exit(Ok(())) && t.notices == seq![
                    Notice::Connected,
                ],
                Command::Monitor => t.effect == Effect::LookUp(UUID_HEIGHT) && t.notices.len() == 0,
                Command::Height | Command::Speed | Command::Save { .. } => t.effect == Effect::Desk(
                    Goal::Measure,
                ) && t.notices.len() == 0,
                Command::Stop => t.effect == Effect::Desk(Goal::Halt) && t.notices.len() == 0,
                Command::MoveTo { arguments, parsed } => {
                    let target = if config.positions.contains_key(arguments@[0]@) {
                        config.positions[arguments@[0]@]
                    } else {
                        parsed->Some_0
                    };
                    &&& arguments@.len() > 0
                    &&& config.positions.contains_key(arguments@[0]@) || parsed is Some
                    &&& t.effect == Effect::Desk(Goal::MoveTo(target))
                    &&& t.notices == seq![Notice::Moving(target)]
                },
                Command::Init { .. } | Command::Delete { .. } => false,
            }
        }),
{
    lemma_stage_fits_command(command, config, device, events);
    lemma_stage_fits_effect(command, config, device, events);
    lemma_next_event(command, config, device, events, Event::Done);
}

/// What a reading is used for is what the command was: its height is shown, its speed is
/// shown, or its height is kept under the name, and the configuration is written.
pub proof fn law_reading_serves_its_command(
    command: Command,
    config: ConfigView,
    device: Option<Seq<char>>,
    events: Seq<Event>,
    reading: Reading,
)
    requires
        session_after(command, config, device, events).effect == Effect::Desk(Goal::Measure),
    ensures
        ({
            let t = session_after(command, config, device, events.push(Event::Measured(reading)));
            let height = decoded_height(reading.height_raw);
            let speed = decoded_speed(reading.speed_raw);
            match command {
                Command::Height => {
                    &&& t.effect == Effect::Exit(Ok(()))
                    &&& t.notices == seq![Notice::Height(height)]
                    &&& t.config == config
                },
                Command::Speed => {
                    &&& t.effect == Effect::Exit(Ok(()))
                    &&& t.notices == seq![Notice::Speed(speed)]
                    &&& t.config == config
                },
                Command::Save { name } => {
                    &&& t.effect == Effect::StoreConfig
                    &&& t.notices.len() == 0
                    &&& t.config.positions == config.positions.insert(name@, height)
                    &&& t.config.device_id == config.device_id
                    &&& t.config.mac_address == config.mac_address
                },
                _ => false,
            }
        }),
{
    lemma_stage_fits_command(command, config, device, events);
    lemma_stage_fits_effect(command, config, device, events);
    lemma_next_event(command, config, device, events, Event::Measured(reading));
}

/// Where the configuration has been written, the user is told what for: that it is kept,
/// that a name is dropped, or that the height that was just read is kept.
pub proof fn law_written_config_is_told_of(
    command: Command,
    config: ConfigView,
    device: Option<Seq<char>>,
    events: Seq<Event>,
)
    requires
        session_after(command, config, device, events).effect == Effect::StoreConfig,
    ensures
        ({
            let s = session_after(command, config, device, events);
            let t = session_after(command, config, device, events.push(Event::Done));
            &&& t.effect == Effect::Exit(Ok(()))
            &&& t.config == s.config
            &&& t.found == s.found
            &&& match command {
                Command::Init { .. } => t.notices == seq![Notice::ConfigSaved],
                Command::Delete { .. } => t.notices == seq![Notice::PositionDeleted],
                Command::Save { .. } => {
                    &&& events.len() > 0
                    &&& events.last() matches Event::Measured(reading)
                    &&& t.notices == seq![Notice::PositionSaved(decoded_height(reading.height_raw))]
                },
                _ => false,
            }
        }),
{
    lemma_stage_fits_command(command, config, device, events);
    lemma_stage_fits_effect(command, config, device, events);
    lemma_next_event(command, config, device, events, Event::Done);
}

/// Where a desk has been stopped or moved, the user is told so, and that is all.
pub proof fn law_done_movement_is_told_of(
    command: Command,
    config: ConfigView,
    device: Option<Seq<char>>,
    events: Seq<Event>,
)
    requires
        session_after(command, config, device, events).effect matches Effect::Desk(goal) && !(goal
            is Measure),
    ensures
        ({
            let s = session_after(command, config, device, events);
            let t = session_after(command, config, device, events.push(Event::Done));
            &&& t.effect == Effect::Exit(Ok(()))
            &&& t.config == s.config
            &&& s.effect == Effect::Desk(Goal::Halt) ==> t.notices == seq![Notice::DeskStopped]
            &&& s.effect != Effect::Desk(Goal::Halt) ==> t.notices == seq![Notice::TargetReached]
        }),
{
    lemma_stage_fits_command(command, config, device, events);
    lemma_stage_fits_effect(command, config, device, events);
    lemma_next_event(command, config, device, events, Event::Done);
}

/// How a desk is looked for: an existing configuration is left alone unless the user
/// insists; otherwise there is a search. What it finds is kept as the desk to use, in
/// place of any other; the positions stay; and the configuration is written, also where
/// nothing was found.
pub proof fn law_search_serves_init(
    force: bool,
    config: ConfigView,
    device: Option<Seq<char>>,
    events: Seq<Event>,
    event: Event,
)
    ensures
        session_after(Command::Init { force }, config, device, seq![]).effect
            == Effect::CheckConfig,
        session_after(Command::Init { force }, config, device, seq![]).notices.len() == 0,
        session_after(Command::Init { force }, config, device, seq![]).config == config,
        ({
            let s = session_after(Command::Init { force }, config, device, events);
            let t = session_after(Command::Init { force }, config, device, events.push(event));
            &&& s.effect == Effect::CheckConfig ==> (event matches Event::ConfigFile(present) ==> {
                &&& t.config == config
                &&& present && !force ==> t.effect == Effect::Exit(Ok(())) && t.notices == seq![
                    Notice::ConfigExists,
                ]
                &&& !present || force ==> t.effect == Effect::Discover && t.notices == seq![
                    Notice::Scanning,
                ]
            })
            &&& s.effect == Effect::Discover ==> (event matches Event::Found(found) ==> {
                &&& t.effect == Effect::StoreConfig
                &&& t.found == found
                &&& t.config.positions == config.positions
                &&& match found {
                    Some(desk) => {
                        &&& t.notices == seq![Notice::DeskFound]
                        &&& t.config.device_id == Some(desk.device_id@)
                        &&& t.config.mac_address is None
                    },
                    None => {
                        &&& t.notices == seq![Notice::NoDeskFound]
                        &&& t.config.device_id == config.device_id
                        &&& t.config.mac_address == config.mac_address
                    },
                }
            })
        }),
{
    let command = Command::Init { force };
    assert(session_after(command, config, device, seq![]) == session_opening(
        command,
        config,
        device,
    ));
    lemma_stage_fits_command(command, config, device, events);
    lemma_stage_fits_effect(command, config, device, events);
    lemma_next_event(command, config, device, events, event);
}

/// How a desk is followed: it has to have the characteristic of its height, of which it
/// is told to report changes. A report of that characteristic in four bytes shows the
/// height that is in the first two bytes and the speed that is, in two's complement, in
/// the last two; any other report shows nothing; and the last one ends the session.
pub proof fn law_reports_serve_monitoring(
    command: Command,
    config: ConfigView,
    device: Option<Seq<char>>,
    events: Seq<Event>,
    event: Event,
)
    ensures
        ({
            let s = session_after(command, config, device, events);
            let t = session_after(command, config, device, events.push(event));
            &&& s.effect is LookUp ==> (event matches Event::HasCharacteristic(has) ==> if has {
                t.effect == Effect::Subscribe(UUID_HEIGHT) && t.notices == seq![Notice::Monitoring]
            } else {
                t.notices.len() == 0 && t.effect == Effect::Exit(
                    Err(DeskError::CharacteristicMissing(UUID_HEIGHT)),
                )
            })
            &&& s.effect is Subscribe && event is Done ==> t.effect == Effect::NextReport
                && t.notices.len() == 0
            &&& s.effect is NextReport && event is ReportsEnded ==> t.effect == Effect::Exit(Ok(()))
                && t.notices.len() == 0
            &&& s.effect is NextReport ==> (event matches Event::Report { characteristic, value }
                ==> {
                let bytes = value@;
                let height_raw = bytes[0] + 256 * bytes[1];
                let speed_raw = bytes[2] + 256 * bytes[3] - if bytes[3] >= 0x80 {
                    0x1_0000int
                } else {
                    0int
                };
                &&& t.effect == Effect::NextReport
                &&& characteristic == UUID_HEIGHT && bytes.len() == 4 ==> t.notices == seq![
                    Notice::Sample(
                        decoded_height(height_raw as u16),
                        decoded_speed(speed_raw as i16),
                    ),
                ]
                &&& characteristic != UUID_HEIGHT || bytes.len() != 4 ==> t.notices.len() == 0
            })
        }),
{
    lemma_stage_fits_command(command, config, device, events);
    lemma_stage_fits_effect(command, config, device, events);
    lemma_next_event(command, config, device, events, event);
    if let Event::Report { characteristic, value } = event {
        law_report_is_read_byte_by_byte(value@);
    }
}

/// Whether `event` is something that can come of `effect`.
pub open spec fn answers(effect: Effect, event: Event) -> bool {
    match effect {
        Effect::CheckConfig => event is ConfigFile,
        Effect::Discover => event is Found,
        Effect::StoreConfig | Effect::Connect | Effect::Subscribe(_) => event is Done,
        Effect::Desk(Goal::Measure) => event is Measured,
        Effect::Desk(_) => event is Done,
        Effect::LookUp(_) => event is HasCharacteristic,
        Effect::NextReport => event is Report || event is ReportsEnded,
        Effect::Exit(_) => false,
    }
}

/// What could not be done ends a session with that error, and what cannot be an answer
/// ends it with an error from outside. Neither says anything, nor changes the
/// configuration. A session that has ended is told nothing more.
pub proof fn law_failure_ends_a_session(
    command: Command,
    config: ConfigView,
    device: Option<Seq<char>>,
    events: Seq<Event>,
    event: Event,
)
    ensures
        ({
            let s = session_after(command, config, device, events);
            let t = session_after(command, config, device, events.push(event));
            &&& s.effect is Exit ==> t == s
            &&& !(s.effect is Exit) && !answers(s.effect, event) ==> {
                &&& t.notices.len() == 0
                &&& t.config == s.config
                &&& t.effect == Effect::Exit(
                    Err(
                        match event {
                            Event::GaveUp(error) => error,
                            _ => DeskError::Outside,
                        },
                    ),
                )
            }
        }),
{
    lemma_stage_fits_command(command, config, device, events);
    lemma_stage_fits_effect(command, config, device, events);
    lemma_next_event(command, config, device, events, event);
}

/// Success is told of only when it has been achieved: that the target is reached, after a
/// movement; that the desk has stopped, after stopping it; that a position is kept or
/// dropped, and that the configuration is kept, after writing the configuration; and
/// that the desk is connected, after connecting it.
pub proof fn law_success_is_told_of_only_when_achieved(
    command: Command,
    config: ConfigView,
    device: Option<Seq<char>>,
    events: Seq<Event>,
    event: Event,
    notice: Notice,
)
    requires
        !(session_after(command, config, device, events).effect is Exit),
        session_after(command, config, device, events.push(event)).notices.contains(notice),
    ensures
        ({
            let asked = session_after(command, config, device, events).effect;
            &&& notice is TargetReached ==> event is Done && command is MoveTo && (asked matches Effect::Desk(
                goal,
            ) && goal is MoveTo)
            &&& notice is DeskStopped ==> event is Done && asked == Effect::Desk(Goal::Halt)
            &&& notice is PositionSaved || notice is PositionDeleted || notice is ConfigSaved
                ==> event is Done && asked == Effect::StoreConfig
            &&& notice is Connected ==> event is Done && asked == Effect::Connect && command is Pair
            &&& notice is Height || notice is Speed ==> event is Measured && asked == Effect::Desk(
                Goal::Measure,
            )
            &&& notice is Sample ==> event is Report && asked == Effect::NextReport
        }),
{
    lemma_stage_fits_command(command, config, device, events);
    lemma_stage_fits_effect(command, config, device, events);
    lemma_next_event(command, config, device, events, event);
}

/// Nothing is told of as a success before anything has been done.
pub proof fn law_no_success_at_the_start(
    command: Command,
    config: ConfigView,
    device: Option<Seq<char>>,
    notice: Notice,
)
    requires
        session_after(command, config, device, seq![]).notices.contains(notice),
    ensures
        notice.complains() || notice == Notice::Connecting,
{
    assert(session_after(command, config, device, seq![]) == session_opening(
        command,
        config,
        device,
    ));
}

/// A name that is there is dropped, the configuration without it is written, and only
/// then, if that was done, the user is told so. A name that is not there is complained
/// about, and nothing is written.
pub proof fn law_deletion_is_written(name: String, config: ConfigView, device: Option<Seq<char>>)
    ensures
        ({
            let command = Command::Delete { name };
            let s = session_after(command, config, device, seq![]);
            let t = session_after(command, config, device, seq![Event::Done]);
            if config.positions.contains_key(name@) {
                &&& s.effect == Effect::StoreConfig
                &&& s.notices.len() == 0
                &&& s.config.positions == config.positions.remove(name@)
                &&& s.config.device_id == config.device_id
                &&& s.config.mac_address == config.mac_address
                &&& t.effect == Effect::Exit(Ok(()))
                &&& t.notices == seq![Notice::PositionDeleted]
                &&& t.config == s.config
            } else {
                &&& s.effect == Effect::Exit(Ok(()))
                &&& s.notices == seq![Notice::PositionNotFound]
                &&& s.config == config
            }
        }),
{
    let command = Command::Delete { name };
    let none = Seq::<Event>::empty();
    assert(session_after(command, config, device, none) == session_opening(
        command,
        config,
        device,
    ));
    assert(none.push(Event::Done) =~= seq![Event::Done]);
    if config.positions.contains_key(name@) {
        law_written_config_is_told_of(command, config, device, none);
    }
}

/// A desk is sent where the user wants it: to the height of the position with the name
/// that was typed, or else to the number that was typed. The user is told that it moves
/// when it begins to, and that it has arrived when it has.
pub proof fn law_desk_is_sent_where_asked(
    arguments: Vec<String>,
    parsed: Option<Binary64>,
    config: ConfigView,
    device: Seq<char>,
)
    requires
        arguments@.len() > 0,
        config.positions.contains_key(arguments@[0]@) || parsed is Some,
    ensures
        ({
            let command = Command::MoveTo { arguments, parsed };
            let target = if config.positions.contains_key(arguments@[0]@) {
                config.positions[arguments@[0]@]
            } else {
                parsed->Some_0
            };
            let linking = session_after(command, config, Some(device), seq![]);
            let moving = session_after(command, config, Some(device), seq![Event::Done]);
            let arrived = session_after(
                command,
                config,
                Some(device),
                seq![Event::Done, Event::Done],
            );
            &&& linking.effect == Effect::Connect
            &&& linking.notices.len() == 0
            &&& moving.effect == Effect::Desk(Goal::MoveTo(target))
            &&& moving.notices == seq![Notice::Moving(target)]
            &&& arrived.effect == Effect::Exit(Ok(()))
            &&& arrived.notices == seq![Notice::TargetReached]
        }),
{
    let command = Command::MoveTo { arguments, parsed };
    let none = Seq::<Event>::empty();
    law_moving_begins(arguments, parsed, config, Some(device));
    law_connected_desk_serves_its_command(command, config, Some(device), none);
    assert(none.push(Event::Done) =~= seq![Event::Done]);
    law_done_movement_is_told_of(command, config, Some(device), seq![Event::Done]);
    assert(seq![Event::Done].push(Event::Done) =~= seq![Event::Done, Event::Done]);
}

/// The height that is shown is the one that the desk reports, and so is the speed.
pub proof fn law_shown_numbers_are_those_reported(
    config: ConfigView,
    device: Seq<char>,
    reading: Reading,
)
    ensures
        ({
            let events = seq![Event::Done, Event::Measured(reading)];
            let height = session_after(Command::Height, config, Some(device), events);
            let speed = session_after(Command::Speed, config, Some(device), events);
            &&& height.effect == Effect::Exit(Ok(()))
            &&& height.notices == seq![Notice::Height(decoded_height(reading.height_raw))]
            &&& speed.effect == Effect::Exit(Ok(()))
            &&& speed.notices == seq![Notice::Speed(decoded_speed(reading.speed_raw))]
        }),
{
    let none = Seq::<Event>::empty();
    assert(none.push(Event::Done) =~= seq![Event::Done]);
    assert(seq![Event::Done].push(Event::Measured(reading)) =~= seq![
        Event::Done,
        Event::Measured(reading),
    ]);
    law_desk_commands_begin(Command::Height, config, Some(device));
    law_desk_commands_begin(Command::Speed, config, Some(device));
    law_connected_desk_serves_its_command(Command::Height, config, Some(device), none);
    law_connected_desk_serves_its_command(Command::Speed, config, Some(device), none);
    law_reading_serves_its_command(
        Command::Height,
        config,
        Some(device),
        seq![Event::Done],
        reading,
    );
    law_reading_serves_its_command(
        Command::Speed,
        config,
        Some(device),
        seq![Event::Done],
        reading,
    );
}

/// The height that is saved is the one that the desk reports: it is written under the
/// name, all else stays, and the user is told of it once it is written.
pub proof fn law_saved_height_is_the_one_reported(
    name: String,
    config: ConfigView,
    device: Seq<char>,
    reading: Reading,
)
    requires
        !reserved(name@),
    ensures
        ({
            let command = Command::Save { name };
            let height = decoded_height(reading.height_raw);
            let writing = session_after(
                command,
                config,
                Some(device),
                seq![Event::Done, Event::Measured(reading)],
            );
            let written = session_after(
                command,
                config,
                Some(device),
                seq![Event::Done, Event::Measured(reading), Event::Done],
            );
            &&& writing.effect == Effect::StoreConfig
            &&& writing.notices.len() == 0
            &&& writing.config.positions == config.positions.insert(name@, height)
            &&& writing.config.device_id == config.device_id
            &&& writing.config.mac_address == config.mac_address
            &&& written.effect == Effect::Exit(Ok(()))
            &&& written.notices == seq![Notice::PositionSaved(height)]
            &&& written.config == writing.config
        }),
{
    let command = Command::Save { name };
    let none = Seq::<Event>::empty();
    let two = seq![Event::Done, Event::Measured(reading)];
    law_seven_names_are_reserved(name@);
    law_saving_begins(name, config, Some(device));
    law_connected_desk_serves_its_command(command, config, Some(device), none);
    assert(none.push(Event::Done) =~= seq![Event::Done]);
    law_reading_serves_its_command(command, config, Some(device), seq![Event::Done], reading);
    assert(seq![Event::Done].push(Event::Measured(reading)) =~= two);
    law_written_config_is_told_of(command, config, Some(device), two);
    assert(two.push(Event::Done) =~= seq![Event::Done, Event::Measured(reading), Event::Done]);
}

/// A desk is stopped, and paired with, in two steps, and the user is told when it is done.
pub proof fn law_desk_is_stopped_and_paired_with(config: ConfigView, device: Seq<char>)
    ensures
        ({
            let stopping = session_after(Command::Stop, config, Some(device), seq![Event::Done]);
            let stopped = session_after(
                Command::Stop,
                config,
                Some(device),
                seq![Event::Done, Event::Done],
            );
            let paired = session_after(Command::Pair, config, Some(device), seq![Event::Done]);
            &&& stopping.effect == Effect::Desk(Goal::Halt)
            &&& stopped.effect == Effect::Exit(Ok(()))
            &&& stopped.notices == seq![Notice::DeskStopped]
            &&& paired.effect == Effect::Exit(Ok(()))
            &&& paired.notices == seq![Notice::Connected]
        }),
{
    let none = Seq::<Event>::empty();
    assert(none.push(Event::Done) =~= seq![Event::Done]);
    assert(seq![Event::Done].push(Event::Done) =~= seq![Event::Done, Event::Done]);
    law_desk_commands_begin(Command::Stop, config, Some(device));
    law_desk_commands_begin(Command::Pair, config, Some(device));
    law_connected_desk_serves_its_command(Command::Stop, config, Some(device), none);
    law_connected_desk_serves_its_command(Command::Pair, config, Some(device), none);
    law_done_movement_is_told_of(Command::Stop, config, Some(device), seq![Event::Done]);
}

/// Where a session stands somewhere, it does so in every respect: its stage, its
/// configuration, the desk that was found, what it says and what it does.
pub proof fn law_session_stands_there_in_every_respect(
    session: Session,
    notices: Seq<Notice>,
    effect: Effect,
    step: SessionStep,
)
    requires
        session.stands_at(notices, effect, step),
    ensures
        step == (SessionStep {
            stage: session.stage,
            config: session.config@,
            found: session.found,
            notices,
            effect,
        }),
{
}

} // verus!
