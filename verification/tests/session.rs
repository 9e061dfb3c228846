use idasen::binary64::Binary64;
use idasen::config::{is_reserved, log_level, Config, LogLevel, Positions};
use idasen::discover::DiscoveredDesk;
use idasen::error::DeskError;
use idasen::height::height_from_raw;
use idasen::motion::Goal;
use idasen::session::{Command, Effect, Event, Notice, Session, Step};
use idasen::wire::{Reading, UUID_COMMAND, UUID_HEIGHT};

fn meters(value: f64) -> Binary64 {
    Binary64 { bits: value.to_bits() }
}

fn config() -> Config {
    let mut config = Config::default();
    config.device_id = Some("desk".to_string());
    config
}

fn start(command: Command) -> (Session, Step) {
    Session::start(command, config(), None)
}

fn check(step: &Step, notices: &[Notice], effect: Effect) {
    assert_eq!(step.notices, notices);
    assert_eq!(step.effect, effect);
}

fn move_to(argument: &str) -> Command {
    Command::MoveTo {
        arguments: vec![argument.to_string()],
        parsed: argument.parse::<f64>().ok().map(meters),
    }
}

const EXIT: Effect = Effect::Exit(Ok(()));

#[test]
fn fresh_configurations() {
    let config = Config::or_default(None);
    assert_eq!(config.device_id, None);
    assert_eq!(config.mac_address, None);
    assert_eq!(config.positions.entries.len(), 2);
    assert_eq!(config.positions.get("sit"), Some(meters(0.75)));
    assert_eq!(config.positions.get("stand"), Some(meters(1.10)));
    assert_eq!(config.positions.get("lie"), None);
    let mut kept = Config::default();
    kept.device_id = Some("kept".to_string());
    assert_eq!(Config::or_default(Some(kept)).device_id, Some("kept".to_string()));
}

#[test]
fn the_desk_to_use() {
    let mut config = Config::default();
    assert_eq!(config.get_device_id(), None);
    assert_eq!(config.resolve_device(None), None);
    config.mac_address = Some("old".to_string());
    assert_eq!(config.get_device_id(), Some(&"old".to_string()));
    config.device_id = Some("new".to_string());
    assert_eq!(config.get_device_id(), Some(&"new".to_string()));
    assert_eq!(config.resolve_device(None), Some("new".to_string()));
    assert_eq!(config.resolve_device(Some("asked".to_string())), Some("asked".to_string()));
    config.adopt("found".to_string());
    assert_eq!(config.get_device_id(), Some(&"found".to_string()));
    assert_eq!(config.mac_address, None);
}

#[test]
fn positions_are_kept_by_name() {
    let mut positions = Positions::new();
    positions.insert("a".to_string(), meters(0.7));
    positions.insert("b".to_string(), meters(0.8));
    positions.insert("a".to_string(), meters(0.9));
    assert_eq!(positions.entries.len(), 2);
    assert_eq!(positions.get("a"), Some(meters(0.9)));
    assert!(positions.remove("a"));
    assert!(!positions.remove("a"));
    assert_eq!(positions.get("a"), None);
    assert_eq!(positions.get("b"), Some(meters(0.8)));
}

#[test]
fn seven_names_are_reserved() {
    for name in ["init", "pair", "monitor", "height", "speed", "save", "delete"] {
        assert!(is_reserved(name));
        let (session, step) = start(Command::Save { name: name.to_string() });
        check(&step, &[Notice::ReservedName], EXIT);
        assert_eq!(session.config.positions.get(name), None);
    }
    for name in ["stop", "sit", "stand", "Init", "", "init "] {
        assert!(!is_reserved(name));
    }
}

#[test]
fn log_levels() {
    assert_eq!(log_level(0), LogLevel::Error);
    assert_eq!(log_level(1), LogLevel::Warn);
    assert_eq!(log_level(2), LogLevel::Info);
    assert_eq!(log_level(3), LogLevel::Debug);
    assert_eq!(log_level(255), LogLevel::Debug);
}

#[test]
fn init_finds_a_desk() {
    let mut old = Config::default();
    old.mac_address = Some("old".to_string());
    let (mut session, step) = Session::start(Command::Init { force: false }, old, None);
    check(&step, &[], Effect::CheckConfig);
    let step = session.advance(Event::ConfigFile(false));
    check(&step, &[Notice::Scanning], Effect::Discover);
    let step = session.advance(Event::Found(Some(DiscoveredDesk {
        device_id: "new".to_string(),
        name: None,
        address: "address".to_string(),
    })));
    check(&step, &[Notice::DeskFound], Effect::StoreConfig);
    assert_eq!(session.config.device_id, Some("new".to_string()));
    assert_eq!(session.config.mac_address, None);
    assert_eq!(session.found.as_ref().unwrap().address, "address");
    let step = session.advance(Event::Done);
    check(&step, &[Notice::ConfigSaved], EXIT);
}

#[test]
fn init_finds_no_desk() {
    let (mut session, _) = start(Command::Init { force: true });
    let step = session.advance(Event::ConfigFile(true));
    check(&step, &[Notice::Scanning], Effect::Discover);
    let step = session.advance(Event::Found(None));
    check(&step, &[Notice::NoDeskFound], Effect::StoreConfig);
    assert_eq!(session.config.device_id, Some("desk".to_string()));
    check(&session.advance(Event::Done), &[Notice::ConfigSaved], EXIT);
}

#[test]
fn init_leaves_an_existing_config_alone() {
    let (mut session, _) = start(Command::Init { force: false });
    let step = session.advance(Event::ConfigFile(true));
    check(&step, &[Notice::ConfigExists], EXIT);
}

#[test]
fn pairing() {
    let (mut session, step) = start(Command::Pair);
    check(&step, &[Notice::Connecting], Effect::Connect);
    assert_eq!(session.device_id, Some("desk".to_string()));
    check(&session.advance(Event::Done), &[Notice::Connected], EXIT);
    let (session, _) =
        Session::start(Command::Pair, config(), Some("asked".to_string()));
    assert_eq!(session.device_id, Some("asked".to_string()));
}

#[test]
fn commands_without_a_desk() {
    let without = |command: Command| Session::start(command, Config::default(), None).1;
    check(
        &without(Command::Pair),
        &[],
        Effect::Exit(Err(DeskError::DeviceIdMissingForPairing)),
    );
    let missing = Effect::Exit(Err(DeskError::DeviceIdMissing));
    check(&without(Command::Height), &[], missing);
    check(&without(Command::Speed), &[], missing);
    check(&without(Command::Monitor), &[], missing);
    check(&without(Command::Stop), &[], missing);
    check(&without(Command::Save { name: "here".to_string() }), &[], missing);
    check(&without(move_to("sit")), &[], missing);
    check(&without(move_to("nowhere")), &[Notice::UnknownTarget], EXIT);
}

#[test]
fn showing_height_and_speed() {
    let reading = Reading { height_raw: 1300, speed_raw: -320 };
    let (mut session, step) = start(Command::Height);
    check(&step, &[], Effect::Connect);
    check(&session.advance(Event::Done), &[], Effect::Desk(Goal::Measure));
    check(&session.advance(Event::Measured(reading)), &[Notice::Height(meters(0.75))], EXIT);
    let (mut session, _) = start(Command::Speed);
    check(&session.advance(Event::Done), &[], Effect::Desk(Goal::Measure));
    check(&session.advance(Event::Measured(reading)), &[Notice::Speed(meters(-0.032))], EXIT);
}

#[test]
fn monitoring() {
    let (mut session, step) = start(Command::Monitor);
    check(&step, &[], Effect::Connect);
    check(&session.advance(Event::Done), &[], Effect::LookUp(UUID_HEIGHT));
    let step = session.advance(Event::HasCharacteristic(true));
    check(&step, &[Notice::Monitoring], Effect::Subscribe(UUID_HEIGHT));
    check(&session.advance(Event::Done), &[], Effect::NextReport);
    let step = session.advance(Event::Report {
        characteristic: UUID_HEIGHT,
        value: vec![0x14, 0x05, 0xc0, 0xfe],
    });
    check(&step, &[Notice::Sample(meters(0.75), meters(-0.032))], Effect::NextReport);
    let step =
        session.advance(Event::Report { characteristic: UUID_HEIGHT, value: vec![1, 2, 3] });
    check(&step, &[], Effect::NextReport);
    let step = session.advance(Event::Report {
        characteristic: UUID_COMMAND,
        value: vec![0x14, 0x05, 0xc0, 0xfe],
    });
    check(&step, &[], Effect::NextReport);
    check(&session.advance(Event::ReportsEnded), &[], EXIT);
}

#[test]
fn monitoring_needs_the_height_characteristic() {
    let (mut session, _) = start(Command::Monitor);
    session.advance(Event::Done);
    check(
        &session.advance(Event::HasCharacteristic(false)),
        &[],
        Effect::Exit(Err(DeskError::CharacteristicMissing(UUID_HEIGHT))),
    );
}

#[test]
fn saving_and_moving_back() {
    let (mut session, step) = start(Command::Save { name: "here".to_string() });
    check(&step, &[], Effect::Connect);
    check(&session.advance(Event::Done), &[], Effect::Desk(Goal::Measure));
    let reading = Reading { height_raw: 2345, speed_raw: 0 };
    let height = height_from_raw(2345);
    check(&session.advance(Event::Measured(reading)), &[], Effect::StoreConfig);
    check(&session.advance(Event::Done), &[Notice::PositionSaved(height)], EXIT);
    let (mut session, step) = Session::start(move_to("here"), session.config, None);
    check(&step, &[], Effect::Connect);
    check(
        &session.advance(Event::Done),
        &[Notice::Moving(height)],
        Effect::Desk(Goal::MoveTo(height)),
    );
    check(&session.advance(Event::Done), &[Notice::TargetReached], EXIT);
}

#[test]
fn deleting() {
    let (mut session, step) = start(Command::Delete { name: "sit".to_string() });
    check(&step, &[], Effect::StoreConfig);
    check(&session.advance(Event::Done), &[Notice::PositionDeleted], EXIT);
    assert_eq!(session.config.positions.get("sit"), None);
    assert_eq!(session.config.positions.get("stand"), Some(meters(1.10)));
    let (_, step) = Session::start(move_to("sit"), session.config, None);
    check(&step, &[Notice::UnknownTarget], EXIT);
    let (_, step) = start(Command::Delete { name: "nowhere".to_string() });
    check(&step, &[Notice::PositionNotFound], EXIT);
}

#[test]
fn stopping() {
    let (mut session, step) = start(Command::Stop);
    check(&step, &[], Effect::Connect);
    check(&session.advance(Event::Done), &[], Effect::Desk(Goal::Halt));
    check(&session.advance(Event::Done), &[Notice::DeskStopped], EXIT);
}

#[test]
fn moving_to_names_and_numbers() {
    let target = |argument: &str| {
        let (mut session, _) = start(move_to(argument));
        session.advance(Event::Done).effect
    };
    assert_eq!(target("sit"), Effect::Desk(Goal::MoveTo(meters(0.75))));
    assert_eq!(target("1.05"), Effect::Desk(Goal::MoveTo(meters(1.05))));
    assert_eq!(target("9"), Effect::Desk(Goal::MoveTo(meters(9.0))));
    let (_, step) = start(move_to("elsewhere"));
    check(&step, &[Notice::UnknownTarget], EXIT);
    let (_, step) = start(Command::MoveTo { arguments: vec![], parsed: None });
    check(&step, &[Notice::MissingTarget], EXIT);
}

#[test]
fn positions_come_before_numbers() {
    let mut config = config();
    config.positions.insert("1".to_string(), meters(0.7));
    assert_eq!(config.find_target("1", Some(meters(1.0))), Some(meters(0.7)));
    assert_eq!(config.find_target("2", Some(meters(2.0))), Some(meters(2.0)));
    assert_eq!(config.find_target("x", None), None);
}

#[test]
fn failures_end_a_session() {
    let (mut session, _) = start(Command::Stop);
    check(
        &session.advance(Event::GaveUp(DeskError::DiscoveryTimeout)),
        &[],
        Effect::Exit(Err(DeskError::DiscoveryTimeout)),
    );
    let (mut session, _) = start(move_to("9"));
    session.advance(Event::Done);
    check(
        &session.advance(Event::GaveUp(DeskError::TargetOutOfRange)),
        &[],
        Effect::Exit(Err(DeskError::TargetOutOfRange)),
    );
}

#[test]
fn complaints() {
    assert!(Notice::ConfigExists.is_complaint());
    assert!(Notice::NoDeskFound.is_complaint());
    assert!(Notice::ReservedName.is_complaint());
    assert!(Notice::PositionNotFound.is_complaint());
    assert!(Notice::UnknownTarget.is_complaint());
    assert!(Notice::MissingTarget.is_complaint());
    assert!(!Notice::Scanning.is_complaint());
    assert!(!Notice::PositionDeleted.is_complaint());
    assert!(!Notice::Moving(meters(1.0)).is_complaint());
}

#[test]
fn a_session_that_has_ended_takes_no_event() {
    let (mut session, step) = start(Command::Save { name: "init".to_string() });
    check(&step, &[Notice::ReservedName], EXIT);
    let again = session.advance(Event::Done);
    check(&again, &[], Effect::Exit(Err(DeskError::Outside)));
}
