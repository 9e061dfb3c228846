use idasen::binary64::Binary64;
use idasen::discover::DiscoveredDesk;
use idasen::session::{Command, Notice};
use idasen::words::Texts;

fn texts() -> Texts {
    Texts {
        path: "\"/home/me/idasen.yaml\"".to_string(),
        device: "AA:BB".to_string(),
        name: "desk".to_string(),
        first: "0.750".to_string(),
        second: "-0.032".to_string(),
    }
}

fn text(notice: Notice) -> String {
    notice.text(&texts(), &None)
}

fn meters(value: f64) -> Binary64 {
    Binary64 { bits: value.to_bits() }
}

#[test]
fn notices_without_numbers() {
    assert_eq!(
        text(Notice::ConfigExists),
        "Configuration file already exists at \"/home/me/idasen.yaml\". Use --force to overwrite."
    );
    assert_eq!(text(Notice::Scanning), "Scanning for desk...");
    assert_eq!(text(Notice::NoDeskFound), "No desk found during scan.");
    assert_eq!(text(Notice::ConfigSaved), "Configuration saved to \"/home/me/idasen.yaml\"");
    assert_eq!(text(Notice::Connecting), "Connecting to AA:BB...");
    assert_eq!(text(Notice::Connected), "Successfully connected!");
    assert_eq!(text(Notice::Monitoring), "Monitoring desk... (Ctrl+C to stop)");
    assert_eq!(text(Notice::ReservedName), "'desk' is a reserved name.");
    assert_eq!(text(Notice::PositionDeleted), "Deleted position 'desk'");
    assert_eq!(text(Notice::PositionNotFound), "Position 'desk' not found");
    assert_eq!(text(Notice::DeskStopped), "Desk stopped.");
    assert_eq!(text(Notice::UnknownTarget), "Unknown position or invalid height: desk");
    assert_eq!(text(Notice::MissingTarget), "Please specify a position name or height.");
    assert_eq!(text(Notice::TargetReached), "Reached target.");
}

#[test]
fn notices_with_numbers() {
    let height = meters(0.75);
    let speed = meters(-0.032);
    assert_eq!(text(Notice::Height(height)), "0.750 meters");
    assert_eq!(text(Notice::Speed(height)), "0.750 meters/second");
    assert_eq!(text(Notice::Sample(height, speed)), "0.750 meters - -0.032 meters/second");
    assert_eq!(text(Notice::PositionSaved(height)), "Saved position 'desk' with height 0.750m");
    assert_eq!(text(Notice::Moving(height)), "Moving to 0.750m...");

    assert_eq!(Notice::Height(height).numbers(), (Some(height), None));
    assert_eq!(Notice::Speed(speed).numbers(), (Some(speed), None));
    assert_eq!(Notice::Sample(height, speed).numbers(), (Some(height), Some(speed)));
    assert_eq!(Notice::PositionSaved(height).numbers(), (Some(height), None));
    assert_eq!(Notice::Moving(height).numbers(), (Some(height), None));
    assert_eq!(Notice::Scanning.numbers(), (None, None));
}

#[test]
fn found_desks_are_described() {
    let desk = |name: Option<&str>| {
        Some(DiscoveredDesk {
            device_id: "hci0/dev_AA".to_string(),
            name: name.map(|name| name.to_string()),
            address: "AA:BB".to_string(),
        })
    };
    assert_eq!(
        Notice::DeskFound.text(&texts(), &desk(Some("Desk 1"))),
        "Discovered desk:\n  Device ID: hci0/dev_AA\n  Name: Desk 1\n  Address: AA:BB"
    );
    assert_eq!(
        Notice::DeskFound.text(&texts(), &desk(None)),
        "Discovered desk:\n  Device ID: hci0/dev_AA\n  Address: AA:BB"
    );
    assert_eq!(text(Notice::DeskFound), "Discovered desk:");
}

#[test]
fn commands_are_about_something() {
    assert_eq!(Command::Save { name: "sit".to_string() }.subject(), "sit");
    assert_eq!(Command::Delete { name: "sit".to_string() }.subject(), "sit");
    let arguments = vec!["stand".to_string(), "up".to_string()];
    assert_eq!(Command::MoveTo { arguments, parsed: None }.subject(), "stand");
    assert_eq!(Command::MoveTo { arguments: vec![], parsed: None }.subject(), "");
    assert_eq!(Command::Stop.subject(), "");
}
