//! What the user reads: notices put into words.
//!
//! The digits of the numbers, the path of the configuration file and the names come
//! from outside.
use vstd::prelude::*;
use vstd::string::*;

use crate::binary64::Binary64;
use crate::discover::DiscoveredDesk;
use crate::session::{Command, Notice};

verus! {

/// What a notice is filled in with.
pub struct Texts {
    /// The path of the configuration file.
    pub path: String,
    /// The desk to use.
    pub device: String,
    /// The position, or the argument, that the command is about.
    pub name: String,
    /// The digits of the first number of the notice.
    pub first: String,
    /// The digits of its second number.
    pub second: String,
}

impl Command {
    /// The position, or the argument, that a command is about.
    pub open spec fn about(self) -> Seq<char> {
        match self {
            Command::Save { name } => name@,
            Command::Delete { name } => name@,
            Command::MoveTo { arguments, .. } => if arguments@.len() > 0 {
                arguments@[0]@
            } else {
                seq![]
            },
            _ => seq![],
        }
    }

    /// The position, or the argument, that a command is about; of other commands, nothing.
    pub fn subject(&self) -> (r: String)
        ensures
            r@ == self.about(),
    {
        match self {
            Command::Save { name } => name.clone(),
            Command::Delete { name } => name.clone(),
            Command::MoveTo { arguments, .. } => if arguments.len() > 0 {
                arguments[0].clone()
            } else {
                String::new()
            },
            _ => String::new(),
        }
    }
}

/// The lines that describe a desk that was found.
pub open spec fn description(desk: DiscoveredDesk) -> Seq<char> {
    "Discovered desk:\n  Device ID: "@ + desk.device_id@ + match desk.name {
        Some(name) => "\n  Name: "@ + name@,
        None => seq![],
    } + "\n  Address: "@ + desk.address@
}

impl Notice {
    /// The numbers in a notice, in the order in which they are shown.
    pub open spec fn shown(self) -> (Option<Binary64>, Option<Binary64>) {
        match self {
            Notice::Height(height) => (Some(height), None),
            Notice::Speed(speed) => (Some(speed), None),
            Notice::Sample(height, speed) => (Some(height), Some(speed)),
            Notice::PositionSaved(height) => (Some(height), None),
            Notice::Moving(target) => (Some(target), None),
            _ => (None, None),
        }
    }

    /// The numbers in a notice, in the order in which they are shown.
    pub fn numbers(&self) -> (r: (Option<Binary64>, Option<Binary64>))
        ensures
            r == self.shown(),
    {
        match *self {
            Notice::Height(height) => (Some(height), None),
            Notice::Speed(speed) => (Some(speed), None),
            Notice::Sample(height, speed) => (Some(height), Some(speed)),
            Notice::PositionSaved(height) => (Some(height), None),
            Notice::Moving(target) => (Some(target), None),
            _ => (None, None),
        }
    }

    /// The words for a notice, where `found` is the desk that was found, if one was.
    pub open spec fn words(self, texts: Texts, found: Option<DiscoveredDesk>) -> Seq<char> {
        match self {
            Notice::ConfigExists => "Configuration file already exists at "@ + texts.path@
                + ". Use --force to overwrite."@,
            Notice::Scanning => "Scanning for desk..."@,
            Notice::DeskFound => match found {
                Some(desk) => description(desk),
                None => "Discovered desk:"@,
            },
            Notice::NoDeskFound => "No desk found during scan."@,
            Notice::ConfigSaved => "Configuration saved to "@ + texts.path@,
            Notice::Connecting => "Connecting to "@ + texts.device@ + "..."@,
            Notice::Connected => "Successfully connected!"@,
            Notice::Height(_) => texts.first@ + " meters"@,
            Notice::Speed(_) => texts.first@ + " meters/second"@,
            Notice::Monitoring => "Monitoring desk... (Ctrl+C to stop)"@,
            Notice::Sample(_, _) => texts.first@ + " meters - "@ + texts.second@
                + " meters/second"@,
            Notice::ReservedName => "'"@ + texts.name@ + "' is a reserved name."@,
            Notice::PositionSaved(_) => "Saved position '"@ + texts.name@ + "' with height "@
                + texts.first@ + "m"@,
            Notice::PositionDeleted => "Deleted position '"@ + texts.name@ + "'"@,
            Notice::PositionNotFound => "Position '"@ + texts.name@ + "' not found"@,
            Notice::DeskStopped => "Desk stopped."@,
            Notice::UnknownTarget => "Unknown position or invalid height: "@ + texts.name@,
            Notice::MissingTarget => "Please specify a position name or height."@,
            Notice::Moving(_) => "Moving to "@ + texts.first@ + "m..."@,
            Notice::TargetReached => "Reached target."@,
        }
    }

    /// Puts a notice into words, where `found` is the desk that was found, if one was.
    pub fn text(&self, texts: &Texts, found: &Option<DiscoveredDesk>) -> (r: String)
        ensures
            r@ == self.words(*texts, *found),
    {
        match *self {
            Notice::ConfigExists => between(
                "Configuration file already exists at ",
                texts.path.as_str(),
                ". Use --force to overwrite.",
            ),
            Notice::Scanning => "Scanning for desk...".to_owned(),
            Notice::DeskFound => match found {
                Some(desk) => describe(desk),
                None => "Discovered desk:".to_owned(),
            },
            Notice::NoDeskFound => "No desk found during scan.".to_owned(),
            Notice::ConfigSaved => {
                let mut text: String = "Configuration saved to ".to_owned();
                text.append(texts.path.as_str());
                text
            },
            Notice::Connecting => between("Connecting to ", texts.device.as_str(), "..."),
            Notice::Connected => "Successfully connected!".to_owned(),
            Notice::Height(_) => {
                let mut text: String = texts.first.clone();
                text.append(" meters");
                text
            },
            Notice::Speed(_) => {
                let mut text: String = texts.first.clone();
                text.append(" meters/second");
                text
            },
            Notice::Monitoring => "Monitoring desk... (Ctrl+C to stop)".to_owned(),
            Notice::Sample(_, _) => {
                let mut text: String = between(
                    texts.first.as_str(),
                    " meters - ",
                    texts.second.as_str(),
                );
                text.append(" meters/second");
                text
            },
            Notice::ReservedName => between("'", texts.name.as_str(), "' is a reserved name."),
            Notice::PositionSaved(_) => {
                let mut text: String = between(
                    "Saved position '",
                    texts.name.as_str(),
                    "' with height ",
                );
                text.append(texts.first.as_str());
                text.append("m");
                text
            },
            Notice::PositionDeleted => between("Deleted position '", texts.name.as_str(), "'"),
            Notice::PositionNotFound => between("Position '", texts.name.as_str(), "' not found"),
            Notice::DeskStopped => "Desk stopped.".to_owned(),
            Notice::UnknownTarget => {
                let mut text: String = "Unknown position or invalid height: ".to_owned();
                text.append(texts.name.as_str());
                text
            },
            Notice::MissingTarget => "Please specify a position name or height.".to_owned(),
            Notice::Moving(_) => between("Moving to ", texts.first.as_str(), "m..."),
            Notice::TargetReached => "Reached target.".to_owned(),
        }
    }
}

/// Puts `middle` between `left` and `right`.
fn between(left: &str, middle: &str, right: &str) -> (r: String)
    ensures
        r@ == left@ + middle@ + right@,
{
    let mut text: String = left.to_owned();
    text.append(middle);
    text.append(right);
    text
}

/// Describes a desk that was found.
fn describe(desk: &DiscoveredDesk) -> (r: String)
    ensures
        r@ == description(*desk),
{
    let mut text: String = "Discovered desk:\n  Device ID: ".to_owned();
    text.append(desk.device_id.as_str());
    match &desk.name {
        Some(name) => {
            text.append("\n  Name: ");
            text.append(name.as_str());
        },
        None => {},
    }
    text.append("\n  Address: ");
    text.append(desk.address.as_str());
    assert(text@ =~= description(*desk));
    text
}

/// What a command is about is what was typed: the name, or the first argument.
pub proof fn law_command_is_about_what_was_typed(
    name: String,
    arguments: Vec<String>,
    parsed: Option<Binary64>,
)
    ensures
        (Command::Save { name }).about() == name@,
        (Command::Delete { name }).about() == name@,
        arguments@.len() > 0 ==> (Command::MoveTo { arguments, parsed }).about()
            == arguments@[0]@,
{
}

/// The numbers that are shown are those of the notice, the height before the speed.
pub proof fn law_notices_show_their_numbers(height: Binary64, speed: Binary64)
    ensures
        Notice::Height(height).shown() == (Some(height), None::<Binary64>),
        Notice::Speed(speed).shown() == (Some(speed), None::<Binary64>),
        Notice::Sample(height, speed).shown() == (Some(height), Some(speed)),
        Notice::PositionSaved(height).shown() == (Some(height), None::<Binary64>),
        Notice::Moving(height).shown() == (Some(height), None::<Binary64>),
{
}

/// A found desk is described by its identifier, its name if it has one, and its
/// address, a line each.
pub proof fn law_found_desk_is_described(
    device_id: String,
    name: String,
    address: String,
    texts: Texts,
)
    ensures
        Notice::DeskFound.words(
            texts,
            Some(DiscoveredDesk { device_id, name: Some(name), address }),
        ) == "Discovered desk:\n  Device ID: "@ + device_id@ + "\n  Name: "@ + name@
            + "\n  Address: "@ + address@,
        Notice::DeskFound.words(texts, Some(DiscoveredDesk { device_id, name: None, address }))
            == "Discovered desk:\n  Device ID: "@ + device_id@ + "\n  Address: "@ + address@,
{
    assert("Discovered desk:\n  Device ID: "@ + device_id@ + ("\n  Name: "@ + name@)
        + "\n  Address: "@ + address@ =~= "Discovered desk:\n  Device ID: "@ + device_id@
        + "\n  Name: "@ + name@ + "\n  Address: "@ + address@);
    assert("Discovered desk:\n  Device ID: "@ + device_id@ + Seq::<char>::empty()
        + "\n  Address: "@ + address@ =~= "Discovered desk:\n  Device ID: "@ + device_id@
        + "\n  Address: "@ + address@);
}

/// What the user reads about names, paths and numbers, whatever these are: each stands
/// where it belongs, and a height before a speed.
pub proof fn law_notices_name_what_they_are_about(
    texts: Texts,
    found: Option<DiscoveredDesk>,
    a: Binary64,
    b: Binary64,
)
    ensures
        Notice::ConfigExists.words(texts, found) == "Configuration file already exists at "@
            + texts.path@ + ". Use --force to overwrite."@,
        Notice::ConfigSaved.words(texts, found) == "Configuration saved to "@ + texts.path@,
        Notice::Connecting.words(texts, found) == "Connecting to "@ + texts.device@ + "..."@,
        Notice::Height(a).words(texts, found) == texts.first@ + " meters"@,
        Notice::Speed(a).words(texts, found) == texts.first@ + " meters/second"@,
        Notice::Sample(a, b).words(texts, found) == texts.first@ + " meters - "@ + texts.second@
            + " meters/second"@,
        Notice::ReservedName.words(texts, found) == "'"@ + texts.name@ + "' is a reserved name."@,
        Notice::PositionSaved(a).words(texts, found) == "Saved position '"@ + texts.name@
            + "' with height "@ + texts.first@ + "m"@,
        Notice::PositionDeleted.words(texts, found) == "Deleted position '"@ + texts.name@ + "'"@,
        Notice::PositionNotFound.words(texts, found) == "Position '"@ + texts.name@
            + "' not found"@,
        Notice::UnknownTarget.words(texts, found) == "Unknown position or invalid height: "@
            + texts.name@,
        Notice::Moving(a).words(texts, found) == "Moving to "@ + texts.first@ + "m..."@,
{
}

/// What the user reads otherwise does not depend on anything.
pub proof fn law_other_notices_are_fixed(texts: Texts, found: Option<DiscoveredDesk>)
    ensures
        Notice::Scanning.words(texts, found) == "Scanning for desk..."@,
        Notice::NoDeskFound.words(texts, found) == "No desk found during scan."@,
        Notice::Connected.words(texts, found) == "Successfully connected!"@,
        Notice::Monitoring.words(texts, found) == "Monitoring desk... (Ctrl+C to stop)"@,
        Notice::DeskStopped.words(texts, found) == "Desk stopped."@,
        Notice::MissingTarget.words(texts, found) == "Please specify a position name or height."@,
        Notice::TargetReached.words(texts, found) == "Reached target."@,
{
}

/// Complaints are these six notices; none of them shows a number.
pub proof fn law_complaints(notice: Notice)
    ensures
        notice.complains() <==> ({
            ||| notice == Notice::ConfigExists
            ||| notice == Notice::NoDeskFound
            ||| notice == Notice::ReservedName
            ||| notice == Notice::PositionNotFound
            ||| notice == Notice::UnknownTarget
            ||| notice == Notice::MissingTarget
        }),
        notice.complains() ==> notice.shown() == (None::<Binary64>, None::<Binary64>),
{
}

} // verus!
