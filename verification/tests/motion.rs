use idasen::binary64::Binary64;
use idasen::error::DeskError;
use idasen::motion::{Goal, Outcome, Reply, Request, Stage, Task};
use idasen::wire::{
    Payload, Reading, UUID_COMMAND, UUID_DPG, UUID_HEIGHT, UUID_REFERENCE_INPUT,
};

fn meters(value: f64) -> Binary64 {
    Binary64 { bits: value.to_bits() }
}

fn report(height: u16, speed: i16) -> Reply {
    let h = height.to_le_bytes();
    let s = speed.to_le_bytes();
    Reply::Data(vec![h[0], h[1], s[0], s[1]])
}

fn run(goal: Goal, replies: Vec<Reply>) -> Vec<Request> {
    let (mut task, first) = Task::start(goal);
    let mut requests = vec![first];
    for reply in replies {
        assert_ne!(task.stage, Stage::Finished);
        requests.push(task.advance(&reply));
    }
    requests
}

fn write(characteristic: u128, payload: Payload) -> Request {
    Request::Write { characteristic, payload }
}

fn give_up(error: DeskError) -> Request {
    Request::Finish(Outcome::GivenUp(error))
}

#[test]
fn waking_a_dpg_controller() {
    for fate in [true, false] {
        let middle = || if fate { Reply::Done } else { Reply::Failed };
        assert_eq!(
            run(Goal::WakeUp, vec![Reply::Present, middle(), middle(), Reply::Done]),
            vec![
                Request::Probe(UUID_DPG),
                write(UUID_DPG, Payload::DpgOpen),
                write(UUID_DPG, Payload::DpgSetup),
                write(UUID_COMMAND, Payload::WakeUp),
                Request::Finish(Outcome::Completed),
            ]
        );
    }
}

#[test]
fn waking_another_controller() {
    assert_eq!(
        run(Goal::WakeUp, vec![Reply::Absent, Reply::Done]),
        vec![
            Request::Probe(UUID_DPG),
            write(UUID_COMMAND, Payload::WakeUp),
            Request::Finish(Outcome::Completed),
        ]
    );
    assert_eq!(
        run(Goal::WakeUp, vec![Reply::Absent, Reply::Failed])[2],
        give_up(DeskError::Outside)
    );
    assert_eq!(
        run(Goal::WakeUp, vec![Reply::Absent, Reply::Absent])[2],
        give_up(DeskError::CharacteristicMissing(UUID_COMMAND))
    );
}

#[test]
fn measuring() {
    assert_eq!(
        run(Goal::Measure, vec![report(1300, -320)]),
        vec![
            Request::Read(UUID_HEIGHT),
            Request::Finish(Outcome::Measured(Reading { height_raw: 1300, speed_raw: -320 })),
        ]
    );
    assert_eq!(
        run(Goal::Measure, vec![Reply::Data(vec![1, 2, 3])])[1],
        give_up(DeskError::InvalidHeightData)
    );
    assert_eq!(
        run(Goal::Measure, vec![Reply::Absent])[1],
        give_up(DeskError::CharacteristicMissing(UUID_HEIGHT))
    );
    assert_eq!(run(Goal::Measure, vec![Reply::Failed])[1], give_up(DeskError::Outside));
}

#[test]
fn halting_ignores_failures() {
    for fate in [true, false] {
        let reply = || if fate { Reply::Done } else { Reply::Absent };
        assert_eq!(
            run(Goal::Halt, vec![reply(), reply()]),
            vec![
                write(UUID_COMMAND, Payload::Stop),
                write(UUID_REFERENCE_INPUT, Payload::ReferenceInputStop),
                Request::Finish(Outcome::Completed),
            ]
        );
    }
}

#[test]
fn moving_until_the_desk_stands_still() {
    assert_eq!(
        run(
            Goal::MoveTo(meters(1.10)),
            vec![
                report(1300, 0),
                Reply::Absent,
                Reply::Done,
                Reply::Done,
                Reply::Done,
                Reply::Done,
                report(2000, 300),
                Reply::Done,
                Reply::Done,
                report(4800, 0),
            ]
        ),
        vec![
            Request::Read(UUID_HEIGHT),
            Request::Probe(UUID_DPG),
            write(UUID_COMMAND, Payload::WakeUp),
            write(UUID_COMMAND, Payload::Stop),
            write(UUID_REFERENCE_INPUT, Payload::MoveTo(4800)),
            Request::Wait(200),
            Request::Read(UUID_HEIGHT),
            write(UUID_REFERENCE_INPUT, Payload::MoveTo(4800)),
            Request::Wait(200),
            Request::Read(UUID_HEIGHT),
            Request::Finish(Outcome::Completed),
        ]
    );
}

#[test]
fn a_desk_at_its_target_is_left_alone() {
    assert_eq!(
        run(Goal::MoveTo(meters(0.75)), vec![report(1304, 0)]),
        vec![Request::Read(UUID_HEIGHT), Request::Finish(Outcome::Completed)]
    );
}

#[test]
fn targets_out_of_range_are_refused_at_once() {
    for target in [0.6, 1.3, 0.0, -1.0, f64::NAN, f64::INFINITY] {
        assert_eq!(
            run(Goal::MoveTo(meters(target)), vec![]),
            vec![give_up(DeskError::TargetOutOfRange)]
        );
    }
}

#[test]
fn a_failure_ends_a_movement() {
    let target = Goal::MoveTo(meters(1.0));
    assert_eq!(run(target, vec![Reply::Failed])[1], give_up(DeskError::Outside));
    assert_eq!(
        run(target, vec![report(0, 0), Reply::Absent, Reply::Failed])[3],
        give_up(DeskError::Outside)
    );
    assert_eq!(
        run(target, vec![report(0, 0), Reply::Absent, Reply::Done, Reply::Failed])[4],
        give_up(DeskError::Outside)
    );
    assert_eq!(
        run(target, vec![report(0, 0), Reply::Absent, Reply::Done, Reply::Done, Reply::Absent])[5],
        give_up(DeskError::CharacteristicMissing(UUID_REFERENCE_INPUT))
    );
    let polled = vec![
        report(0, 0),
        Reply::Absent,
        Reply::Done,
        Reply::Done,
        Reply::Done,
        Reply::Done,
        Reply::Data(vec![0; 5]),
    ];
    assert_eq!(run(target, polled)[7], give_up(DeskError::InvalidHeightData));
}

#[test]
fn a_failure_is_named() {
    let target = Goal::MoveTo(meters(1.0));
    assert_eq!(
        run(target, vec![Reply::Absent])[1],
        give_up(DeskError::CharacteristicMissing(UUID_HEIGHT))
    );
    assert_eq!(
        run(target, vec![Reply::Data(vec![0; 3])])[1],
        give_up(DeskError::InvalidHeightData)
    );
    assert_eq!(
        run(target, vec![report(0, 0), Reply::Absent, Reply::Absent])[3],
        give_up(DeskError::CharacteristicMissing(UUID_COMMAND))
    );
    assert_eq!(
        run(target, vec![report(0, 0), Reply::Absent, Reply::Done, Reply::Absent])[4],
        give_up(DeskError::CharacteristicMissing(UUID_COMMAND))
    );
}

#[test]
fn a_task_that_has_finished_takes_no_reply() {
    let (mut task, _) = Task::start(Goal::MoveTo(meters(2.0)));
    assert_eq!(task.stage, Stage::Finished);
    assert_eq!(task.advance(&report(0, 0)), give_up(DeskError::Outside));
    let (mut task, _) = Task::start(Goal::Measure);
    assert_eq!(task.advance(&Reply::Failed), give_up(DeskError::Outside));
    assert_eq!(task.advance(&report(0, 0)), give_up(DeskError::Outside));
}

#[test]
fn a_moving_desk_is_commanded_once_a_report() {
    let target = Goal::MoveTo(meters(1.0));
    for count in 1..6 {
        let mut replies = vec![report(0, 0), Reply::Absent, Reply::Done, Reply::Done];
        for round in 1..=count {
            let speed = if round == count { 0 } else { -320 };
            replies.push(Reply::Done);
            replies.push(Reply::Done);
            replies.push(report(1000 * round, speed));
        }
        let requests = run(target, replies);
        let command = write(UUID_REFERENCE_INPUT, Payload::MoveTo(3800));
        let commands = requests.iter().filter(|request| **request == command).count();
        assert_eq!(commands, count as usize);
        assert_eq!(requests.last(), Some(&Request::Finish(Outcome::Completed)));
    }
}
