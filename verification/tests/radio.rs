use idasen::connect::{ConnectReply, ConnectRequest, Connecting};
use idasen::discover::{DiscoverReply, DiscoverRequest, DiscoveredDesk, Discovering, Properties};
use idasen::error::DeskError;
use idasen::motion::{Reply, Request};
use idasen::wire::{Payload, UUID_ADV_SVC, UUID_COMMAND, UUID_DPG, UUID_HEIGHT};

const DESK: &str = "E8:5B:5B:24:22:E4";

fn connect(replies: Vec<ConnectReply>) -> Vec<ConnectRequest> {
    let (mut connecting, first) = Connecting::start();
    let mut requests = vec![first];
    for reply in replies {
        requests.push(connecting.advance(DESK, &reply));
    }
    requests
}

fn seen(id: &str) -> ConnectReply {
    ConnectReply::Discovered(id.to_string())
}

#[test]
fn connecting_to_a_known_desk() {
    assert_eq!(
        connect(vec![
            ConnectReply::Adapters(2),
            ConnectReply::Done,
            ConnectReply::Done,
            ConnectReply::OtherEvent,
            seen("00:00:00:00:00:00"),
            seen(DESK),
            ConnectReply::Done,
            ConnectReply::Failed,
            ConnectReply::Connected(false),
            ConnectReply::Done,
            ConnectReply::Done,
            ConnectReply::Desk(Reply::Absent),
            ConnectReply::Desk(Reply::Done),
        ]),
        vec![
            ConnectRequest::ListAdapters,
            ConnectRequest::OpenEvents(0),
            ConnectRequest::StartScan,
            ConnectRequest::NextEvent(10),
            ConnectRequest::NextEvent(10),
            ConnectRequest::NextEvent(10),
            ConnectRequest::OpenPeripheral(10),
            ConnectRequest::StopScan,
            ConnectRequest::CheckConnection,
            ConnectRequest::Connect,
            ConnectRequest::DiscoverServices,
            ConnectRequest::Desk(Request::Probe(UUID_DPG)),
            ConnectRequest::Desk(Request::Write {
                characteristic: UUID_COMMAND,
                payload: Payload::WakeUp,
            }),
            ConnectRequest::Finish(Ok(())),
        ]
    );
}

#[test]
fn a_connected_desk_is_not_connected_again() {
    let requests = connect(vec![
        ConnectReply::Adapters(1),
        ConnectReply::Done,
        ConnectReply::Done,
        seen(DESK),
        ConnectReply::Done,
        ConnectReply::Done,
        ConnectReply::Connected(true),
    ]);
    assert_eq!(requests[7], ConnectRequest::DiscoverServices);
}

#[test]
fn a_desk_that_cannot_be_opened_is_awaited_again() {
    let requests = connect(vec![
        ConnectReply::Adapters(1),
        ConnectReply::Done,
        ConnectReply::Done,
        seen(DESK),
        ConnectReply::Failed,
        seen(DESK),
    ]);
    assert_eq!(requests[5], ConnectRequest::NextEvent(10));
    assert_eq!(requests[6], ConnectRequest::OpenPeripheral(10));
}

#[test]
fn a_connection_succeeds_after_waiting() {
    let requests = connect(vec![
        ConnectReply::Adapters(1),
        ConnectReply::Done,
        ConnectReply::Done,
        ConnectReply::OtherEvent,
        seen(DESK),
        ConnectReply::Failed,
        seen("00:00:00:00:00:00"),
        seen(DESK),
        ConnectReply::Done,
        ConnectReply::Done,
        ConnectReply::Connected(true),
        ConnectReply::Done,
        ConnectReply::Desk(Reply::Present),
        ConnectReply::Desk(Reply::Failed),
        ConnectReply::Desk(Reply::Failed),
        ConnectReply::Desk(Reply::Done),
    ]);
    assert_eq!(requests.last(), Some(&ConnectRequest::Finish(Ok(()))));
}

#[test]
fn connections_fail_for_their_reasons() {
    let last = |replies: Vec<ConnectReply>| *connect(replies).last().unwrap();
    let error = |error: DeskError| ConnectRequest::Finish(Err(error));
    assert_eq!(last(vec![ConnectReply::Adapters(0)]), error(DeskError::NoAdapter));
    assert_eq!(last(vec![ConnectReply::Failed]), error(DeskError::Outside));
    assert_eq!(
        last(vec![ConnectReply::Adapters(1), ConnectReply::Failed]),
        error(DeskError::Outside)
    );
    assert_eq!(
        last(vec![ConnectReply::Adapters(1), ConnectReply::Done, ConnectReply::Failed]),
        error(DeskError::ScanNotStarted)
    );
    let listening = || vec![ConnectReply::Adapters(1), ConnectReply::Done, ConnectReply::Done];
    let with = |more: Vec<ConnectReply>| {
        let mut replies = listening();
        replies.extend(more);
        last(replies)
    };
    assert_eq!(with(vec![ConnectReply::TimedOut]), error(DeskError::DiscoveryTimeout));
    assert_eq!(with(vec![ConnectReply::EventsEnded]), error(DeskError::DeskNotFound));
    assert_eq!(
        with(vec![seen(DESK), ConnectReply::TimedOut]),
        error(DeskError::DiscoveryTimeout)
    );
    let opened = |more: Vec<ConnectReply>| {
        let mut replies = listening();
        replies.extend(vec![seen(DESK), ConnectReply::Done, ConnectReply::Done]);
        replies.extend(more);
        last(replies)
    };
    assert_eq!(opened(vec![ConnectReply::Failed]), error(DeskError::Outside));
    assert_eq!(
        opened(vec![ConnectReply::Connected(false), ConnectReply::Failed]),
        error(DeskError::ConnectionFailed)
    );
    assert_eq!(
        opened(vec![ConnectReply::Connected(true), ConnectReply::Failed]),
        error(DeskError::Outside)
    );
    assert_eq!(
        opened(vec![
            ConnectReply::Connected(true),
            ConnectReply::Done,
            ConnectReply::Desk(Reply::Absent),
            ConnectReply::Desk(Reply::Failed),
        ]),
        error(DeskError::Outside)
    );
    assert_eq!(
        opened(vec![
            ConnectReply::Connected(true),
            ConnectReply::Done,
            ConnectReply::Desk(Reply::Absent),
            ConnectReply::Desk(Reply::Absent),
        ]),
        error(DeskError::CharacteristicMissing(UUID_COMMAND))
    );
}

#[test]
fn a_connection_that_has_ended_takes_no_reply() {
    let (mut connecting, _) = Connecting::start();
    let failed = connecting.advance(DESK, &ConnectReply::Adapters(0));
    assert_eq!(failed, ConnectRequest::Finish(Err(DeskError::NoAdapter)));
    let again = connecting.advance(DESK, &ConnectReply::Done);
    assert_eq!(again, ConnectRequest::Finish(Err(DeskError::Outside)));
}

fn device(id: &str, services: Vec<u128>) -> DiscoverReply {
    DiscoverReply::Properties(Some(Properties {
        device_id: id.to_string(),
        name: Some(format!("Desk {}", id)),
        address: format!("address of {}", id),
        services,
    }))
}

fn discover(replies: Vec<DiscoverReply>) -> Vec<DiscoverRequest> {
    let (mut discovering, first) = Discovering::start();
    let mut requests = vec![first];
    for reply in replies {
        requests.push(discovering.advance(reply));
    }
    requests
}

fn outcome(replies: Vec<DiscoverReply>) -> Result<Option<DiscoveredDesk>, DeskError> {
    match discover(replies).pop() {
        Some(DiscoverRequest::Finish(result)) => result,
        _ => panic!("the search goes on"),
    }
}

#[test]
fn searching_asks_for_devices_in_turn() {
    let requests = discover(vec![
        DiscoverReply::Adapters(1),
        DiscoverReply::Done,
        DiscoverReply::Done,
        DiscoverReply::Peripherals(3),
        DiscoverReply::Properties(None),
        device("b", vec![UUID_HEIGHT]),
    ]);
    assert!(matches!(requests[0], DiscoverRequest::ListAdapters));
    assert!(matches!(
        requests[1],
        DiscoverRequest::StartScan { adapter: 0, service: UUID_ADV_SVC }
    ));
    assert!(matches!(requests[2], DiscoverRequest::Wait(3000)));
    assert!(matches!(requests[3], DiscoverRequest::ListPeripherals));
    assert!(matches!(requests[4], DiscoverRequest::Inspect(0)));
    assert!(matches!(requests[5], DiscoverRequest::Inspect(1)));
    assert!(matches!(requests[6], DiscoverRequest::Inspect(2)));
}

#[test]
fn the_first_desk_is_reported() {
    let desk = outcome(vec![
        DiscoverReply::Adapters(1),
        DiscoverReply::Done,
        DiscoverReply::Done,
        DiscoverReply::Peripherals(4),
        DiscoverReply::Properties(None),
        device("b", vec![]),
        device("c", vec![UUID_HEIGHT, UUID_ADV_SVC]),
    ])
    .unwrap()
    .unwrap();
    assert_eq!(desk.device_id, "c");
    assert_eq!(desk.name, Some("Desk c".to_string()));
    assert_eq!(desk.address, "address of c");
}

#[test]
fn a_search_may_find_nothing() {
    let nothing = outcome(vec![
        DiscoverReply::Adapters(1),
        DiscoverReply::Done,
        DiscoverReply::Done,
        DiscoverReply::Peripherals(0),
    ]);
    assert!(matches!(nothing, Ok(None)));
    let nothing = outcome(vec![
        DiscoverReply::Adapters(1),
        DiscoverReply::Done,
        DiscoverReply::Done,
        DiscoverReply::Peripherals(1),
        device("a", vec![UUID_HEIGHT]),
    ]);
    assert!(matches!(nothing, Ok(None)));
}

#[test]
fn searches_fail_for_their_reasons() {
    assert!(matches!(outcome(vec![DiscoverReply::Adapters(0)]), Err(DeskError::NoAdapter)));
    assert!(matches!(outcome(vec![DiscoverReply::Failed]), Err(DeskError::Outside)));
    assert!(matches!(
        outcome(vec![DiscoverReply::Adapters(1), DiscoverReply::Failed]),
        Err(DeskError::Outside)
    ));
    assert!(matches!(
        outcome(vec![
            DiscoverReply::Adapters(1),
            DiscoverReply::Done,
            DiscoverReply::Done,
            DiscoverReply::Peripherals(2),
            DiscoverReply::Failed,
        ]),
        Err(DeskError::Outside)
    ));
}

fn look(devices: Vec<DiscoverReply>) -> Result<Option<DiscoveredDesk>, DeskError> {
    let mut replies = vec![
        DiscoverReply::Adapters(1),
        DiscoverReply::Done,
        DiscoverReply::Failed,
        DiscoverReply::Peripherals(devices.len()),
    ];
    replies.extend(devices);
    outcome(replies)
}

#[test]
fn a_desk_in_reach_is_found() {
    let last = vec![
        device("a", vec![UUID_HEIGHT]),
        DiscoverReply::Properties(None),
        device("c", vec![UUID_ADV_SVC]),
    ];
    assert_eq!(look(last).unwrap().unwrap().device_id, "c");
    let none = vec![device("a", vec![]), DiscoverReply::Properties(None)];
    assert!(matches!(look(none), Ok(None)));
}

#[test]
fn a_failed_look_ends_a_search() {
    let failing = vec![device("a", vec![UUID_HEIGHT]), DiscoverReply::Failed];
    assert!(matches!(look(failing), Err(DeskError::Outside)));
}

#[test]
fn a_search_that_has_ended_takes_no_reply() {
    let (mut discovering, _) = Discovering::start();
    let failed = discovering.advance(DiscoverReply::Adapters(0));
    assert!(matches!(failed, DiscoverRequest::Finish(Err(DeskError::NoAdapter))));
    let again = discovering.advance(DiscoverReply::Adapters(1));
    assert!(matches!(again, DiscoverRequest::Finish(Err(DeskError::Outside))));
}
