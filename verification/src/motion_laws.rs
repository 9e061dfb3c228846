//! What holds of a desk task whatever the desk replies.
use vstd::prelude::*;

use crate::binary64::Binary64;
use crate::error::DeskError;
use crate::height::{allowed, close, height_ticks, law_target_number_is_accurate, raw_of};
use crate::motion::{
    command, end, following, give_up, opening, put, reading_in, wake, Goal, Outcome, Reply,
    ReplyView, Request, Stage, Step, POLL_INTERVAL,
};
use crate::wire::{
    law_report_is_read_byte_by_byte, Payload, UUID_COMMAND, UUID_DPG, UUID_HEIGHT,
    UUID_REFERENCE_INPUT,
};

verus! {

/// Where a task for `goal` stands after `replies`. A finished task is told nothing more
/// and stays as it is.
pub open spec fn after(goal: Goal, replies: Seq<ReplyView>) -> Step
    decreases replies.len(),
{
    if replies.len() == 0 {
        opening(goal)
    } else {
        let before = after(goal, replies.drop_last());
        if before.0 is Finished {
            before
        } else {
            following(goal, before.0, replies.last())
        }
    }
}

/// Whether, at the `i`-th of `replies`, the task had asked for `request` and was told
/// that it was done.
pub open spec fn done_at(goal: Goal, replies: Seq<ReplyView>, i: int, request: Request) -> bool {
    &&& 0 <= i < replies.len()
    &&& after(goal, replies.take(i)).1 == request
    &&& replies[i] is Done
}

/// The request to wake the desk up.
pub open spec fn wake_request() -> Request {
    wake().1
}

/// The request to stop the desk.
pub open spec fn stop_request() -> Request {
    put(Stage::Stopping, UUID_COMMAND, Payload::Stop).1
}

/// A desk that is sent to a height it cannot reach is asked nothing and told nothing.
pub proof fn law_refused_target_asks_nothing(target: Binary64, replies: Seq<ReplyView>)
    requires
        !allowed(target),
    ensures
        after(Goal::MoveTo(target), replies) == give_up(DeskError::TargetOutOfRange),
    decreases replies.len(),
{
    if replies.len() > 0 {
        law_refused_target_asks_nothing(target, replies.drop_last());
    }
}

/// The request matches the stage throughout.
proof fn lemma_stage_fixes_request(goal: Goal, replies: Seq<ReplyView>)
    ensures
        ({
            let (stage, request) = after(goal, replies);
            match stage {
                Stage::Measuring => request == Request::Read(UUID_HEIGHT),
                Stage::ProbingDpg => request == Request::Probe(UUID_DPG),
                Stage::OpeningDpg => request == put(stage, UUID_DPG, Payload::DpgOpen).1,
                Stage::SettingDpg => request == put(stage, UUID_DPG, Payload::DpgSetup).1,
                Stage::Waking => request == wake_request(),
                Stage::Stopping => request == stop_request(),
                Stage::StoppingReference => request == put(
                    stage,
                    UUID_REFERENCE_INPUT,
                    Payload::ReferenceInputStop,
                ).1 && goal is Halt,
                Stage::Commanding => goal is MoveTo && request == command(goal->MoveTo_0).1,
                Stage::Pausing => goal is MoveTo && request == Request::Wait(POLL_INTERVAL),
                Stage::Polling => goal is MoveTo && request == Request::Read(UUID_HEIGHT),
                Stage::Finished => request is Finish,
            }
        }),
        after(goal, replies).0 is Stopping ==> goal is MoveTo || goal is Halt,
    decreases replies.len(),
{
    if replies.len() > 0 {
        lemma_stage_fixes_request(goal, replies.drop_last());
    }
}

/// A moving desk is only ever told the number of its target: whatever is written to
/// the reference input of a desk on its way to `target` is that number, which is at
/// most 6500, and no height is written anywhere else.
pub proof fn law_only_the_target_is_commanded(target: Binary64, replies: Seq<ReplyView>)
    ensures
        after(Goal::MoveTo(target), replies).1 matches Request::Write { characteristic, payload }
            ==> {
            &&& characteristic == UUID_REFERENCE_INPUT <==> payload is MoveTo
            &&& payload is MoveTo ==> {
                &&& allowed(target)
                &&& payload == Payload::MoveTo(raw_of(target) as u16)
                &&& raw_of(target) <= 6500
            }
        },
{
    lemma_stage_fixes_request(Goal::MoveTo(target), replies);
    if allowed(target) {
        law_target_number_is_accurate(target);
    } else {
        law_refused_target_asks_nothing(target, replies);
    }
}

/// Nothing but a movement writes a height.
pub proof fn law_other_tasks_move_nothing(goal: Goal, replies: Seq<ReplyView>)
    requires
        !(goal is MoveTo),
    ensures
        after(goal, replies).1 matches Request::Write { payload, .. } ==> !(payload is MoveTo),
{
    lemma_stage_fixes_request(goal, replies);
}

/// More replies do not change what was asked before.
proof fn lemma_done_stays_done(goal: Goal, replies: Seq<ReplyView>, i: int, request: Request)
    requires
        replies.len() > 0,
        done_at(goal, replies.drop_last(), i, request),
    ensures
        done_at(goal, replies, i, request),
{
    assert(replies.drop_last().take(i) =~= replies.take(i));
}

/// A desk on its way has been woken and stopped.
proof fn lemma_prepared(target: Binary64, replies: Seq<ReplyView>)
    ensures
        ({
            let goal = Goal::MoveTo(target);
            let stage = after(goal, replies).0;
            &&& stage is Stopping ==> exists|i: int| done_at(goal, replies, i, wake_request())
            &&& stage is Commanding || stage is Pausing || stage is Polling ==> exists|i: int, j: int|
                i < j && #[trigger] done_at(goal, replies, i, wake_request())
                    && #[trigger] done_at(goal, replies, j, stop_request())
        }),
    decreases replies.len(),
{
    let goal = Goal::MoveTo(target);
    let n = replies.len() as int;
    if n > 0 {
        let prior = replies.drop_last();
        lemma_prepared(target, prior);
        lemma_stage_fixes_request(goal, prior);
        let from = after(goal, prior).0;
        assert(replies.take(n - 1) =~= prior);
        match from {
            Stage::Waking => {
                if after(goal, replies).0 is Stopping {
                    assert(done_at(goal, replies, n - 1, wake_request()));
                }
            },
            Stage::Stopping => {
                let i = choose|i: int| done_at(goal, prior, i, wake_request());
                lemma_done_stays_done(goal, replies, i, wake_request());
                if after(goal, replies).0 is Commanding {
                    assert(done_at(goal, replies, n - 1, stop_request()));
                }
            },
            Stage::Commanding | Stage::Pausing | Stage::Polling => {
                let (i, j) = choose|i: int, j: int|
                    i < j && #[trigger] done_at(goal, prior, i, wake_request())
                        && #[trigger] done_at(goal, prior, j, stop_request());
                lemma_done_stays_done(goal, replies, i, wake_request());
                lemma_done_stays_done(goal, replies, j, stop_request());
            },
            _ => {},
        }
    }
}

/// Before a desk is sent anywhere it has been woken up and then stopped, and both
/// times the writing succeeded.
pub proof fn law_desk_is_prepared_before_it_moves(target: Binary64, replies: Seq<ReplyView>)
    requires
        after(Goal::MoveTo(target), replies).1 matches Request::Write { payload, .. }
            && payload is MoveTo,
    ensures
        exists|i: int, j: int|
            i < j && #[trigger] done_at(Goal::MoveTo(target), replies, i, wake_request())
                && #[trigger] done_at(Goal::MoveTo(target), replies, j, stop_request()),
{
    lemma_stage_fixes_request(Goal::MoveTo(target), replies);
    lemma_prepared(target, replies);
}

/// A movement counts as completed only on a reading: either the first one, which
/// shows the desk at its target, or a later one, which shows it standing still.
pub proof fn law_completed_movement_was_seen(target: Binary64, replies: Seq<ReplyView>)
    requires
        after(Goal::MoveTo(target), replies) == end(Outcome::Completed),
    ensures
        exists|n: int|
            {
                let from = after(Goal::MoveTo(target), replies.take(n)).0;
                &&& 0 <= n < replies.len()
                &&& reading_in(#[trigger] replies[n]) matches Ok(reading)
                &&& ({
                    ||| from is Measuring && close(
                        height_ticks(reading.height_raw),
                        target.ticks(),
                    )
                    ||| from is Polling && reading.speed_raw == 0
                })
            },
    decreases replies.len(),
{
    let goal = Goal::MoveTo(target);
    let n = replies.len() as int;
    assert(n > 0);
    let prior = replies.drop_last();
    assert(replies.take(n - 1) =~= prior);
    if after(goal, prior).0 is Finished {
        law_completed_movement_was_seen(target, prior);
        let m = choose|m: int|
            {
                let from = after(goal, prior.take(m)).0;
                &&& 0 <= m < prior.len()
                &&& reading_in(#[trigger] prior[m]) matches Ok(reading)
                &&& ({
                    ||| from is Measuring && close(
                        height_ticks(reading.height_raw),
                        target.ticks(),
                    )
                    ||| from is Polling && reading.speed_raw == 0
                })
            };
        assert(prior.take(m) =~= replies.take(m));
        assert(replies[m] == prior[m]);
    } else {
        lemma_stage_fixes_request(goal, prior);
        assert(replies[n - 1] == replies.last());
    }
}

/// As long as the desk is seen moving, it is sent to the same height again, after a
/// pause; as soon as it is seen standing still, the movement is over.
pub proof fn law_movement_is_repeated_until_still(
    target: Binary64,
    pause: ReplyView,
    report: ReplyView,
)
    ensures
        ({
            let goal = Goal::MoveTo(target);
            let waiting = following(goal, command(target).0, ReplyView::Done);
            let looking = following(goal, waiting.0, pause);
            &&& waiting.1 == Request::Wait(200)
            &&& looking.1 == Request::Read(UUID_HEIGHT)
            &&& reading_in(report) matches Ok(reading) ==> following(goal, looking.0, report) == if reading.speed_raw
                == 0 {
                end(Outcome::Completed)
            } else {
                command(target)
            }
        }),
{
}

/// The replies to everything that comes before the desk is sent to its target: the
/// first reading, whether there is a DPG controller, what became of setting that up,
/// and that the desk has been woken up and stopped.
pub open spec fn preparation(
    first: ReplyView,
    probe: ReplyView,
    opened: ReplyView,
    set_up: ReplyView,
) -> Seq<ReplyView> {
    if probe is Present {
        seq![first, probe, opened, set_up, ReplyView::Done, ReplyView::Done]
    } else {
        seq![first, probe, ReplyView::Done, ReplyView::Done]
    }
}

/// The replies to `n` rounds of a movement: the desk has taken the height to move to,
/// the pause has passed, and the desk has reported.
pub open spec fn rounds(pauses: Seq<ReplyView>, reports: Seq<ReplyView>, n: nat) -> Seq<ReplyView>
    decreases n,
{
    if n == 0 {
        seq![]
    } else {
        rounds(pauses, reports, (n - 1) as nat) + seq![
            ReplyView::Done,
            pauses[n - 1],
            reports[n - 1],
        ]
    }
}

/// How often a task has asked to send the desk to `target`.
pub open spec fn commands(target: Binary64, replies: Seq<ReplyView>) -> nat
    decreases replies.len(),
{
    let now: nat = if after(Goal::MoveTo(target), replies) == command(target) {
        1
    } else {
        0
    };
    if replies.len() == 0 {
        now
    } else {
        commands(target, replies.drop_last()) + now
    }
}

/// One reply more is one step further.
proof fn lemma_one_more(target: Binary64, replies: Seq<ReplyView>, reply: ReplyView)
    requires
        !(after(Goal::MoveTo(target), replies).0 is Finished),
    ensures
        ({
            let goal = Goal::MoveTo(target);
            let next = following(goal, after(goal, replies).0, reply);
            &&& after(goal, replies.push(reply)) == next
            &&& commands(target, replies.push(reply)) == commands(target, replies) + if next
                == command(target) {
                1nat
            } else {
                0nat
            }
        }),
{
    assert(replies.push(reply).drop_last() =~= replies);
}

/// The preparation leads to the first command.
proof fn lemma_preparation(
    target: Binary64,
    first: ReplyView,
    probe: ReplyView,
    opened: ReplyView,
    set_up: ReplyView,
)
    requires
        allowed(target),
        reading_in(first) matches Ok(reading) && !close(
            height_ticks(reading.height_raw),
            target.ticks(),
        ),
    ensures
        ({
            let replies = preparation(first, probe, opened, set_up);
            &&& after(Goal::MoveTo(target), replies) == command(target)
            &&& commands(target, replies) == 1
        }),
{
    let r0 = Seq::<ReplyView>::empty();
    assert(after(Goal::MoveTo(target), r0) == opening(Goal::MoveTo(target)));
    assert(commands(target, r0) == 0);
    let r1 = r0.push(first);
    lemma_one_more(target, r0, first);
    let r2 = r1.push(probe);
    lemma_one_more(target, r1, probe);
    let r3 = if probe is Present {
        lemma_one_more(target, r2, opened);
        lemma_one_more(target, r2.push(opened), set_up);
        r2.push(opened).push(set_up)
    } else {
        r2
    };
    lemma_one_more(target, r3, ReplyView::Done);
    lemma_one_more(target, r3.push(ReplyView::Done), ReplyView::Done);
    assert(r3.push(ReplyView::Done).push(ReplyView::Done) =~= preparation(
        first,
        probe,
        opened,
        set_up,
    ));
}

/// Every round that sees the desk moving leads to one command more.
proof fn lemma_rounds(
    target: Binary64,
    start: Seq<ReplyView>,
    pauses: Seq<ReplyView>,
    reports: Seq<ReplyView>,
    n: nat,
)
    requires
        after(Goal::MoveTo(target), start) == command(target),
        n <= reports.len(),
        forall|i: int|
            0 <= i < n ==> (reading_in(#[trigger] reports[i]) matches Ok(reading)
                && reading.speed_raw != 0),
    ensures
        after(Goal::MoveTo(target), start + rounds(pauses, reports, n)) == command(target),
        commands(target, start + rounds(pauses, reports, n)) == commands(target, start) + n,
    decreases n,
{
    if n == 0 {
        assert(start + rounds(pauses, reports, n) =~= start);
    } else {
        let m = (n - 1) as nat;
        lemma_rounds(target, start, pauses, reports, m);
        lemma_round(target, start + rounds(pauses, reports, m), pauses[n - 1], reports[n - 1]);
        assert(start + rounds(pauses, reports, n) =~= (start + rounds(pauses, reports, m)).push(
            ReplyView::Done,
        ).push(pauses[n - 1]).push(reports[n - 1]));
    }
}

/// One round of a movement.
proof fn lemma_round(
    target: Binary64,
    start: Seq<ReplyView>,
    pause: ReplyView,
    report: ReplyView,
)
    requires
        after(Goal::MoveTo(target), start) == command(target),
    ensures
        ({
            let replies = start.push(ReplyView::Done).push(pause).push(report);
            reading_in(report) matches Ok(reading) ==> if reading.speed_raw == 0 {
                &&& after(Goal::MoveTo(target), replies) == end(Outcome::Completed)
                &&& commands(target, replies) == commands(target, start)
            } else {
                &&& after(Goal::MoveTo(target), replies) == command(target)
                &&& commands(target, replies) == commands(target, start) + 1
            }
        }),
{
    lemma_one_more(target, start, ReplyView::Done);
    lemma_one_more(target, start.push(ReplyView::Done), pause);
    lemma_one_more(target, start.push(ReplyView::Done).push(pause), report);
}

/// A whole movement: a desk that is not at its target is prepared, sent there, and sent
/// there again after every report but the one that shows it standing still, which
/// completes the movement. It is sent there as often as it reports after the first
/// reading, each time with the same command, and goes on as long as it is seen moving.
pub proof fn law_whole_movement(
    target: Binary64,
    first: ReplyView,
    probe: ReplyView,
    opened: ReplyView,
    set_up: ReplyView,
    pauses: Seq<ReplyView>,
    reports: Seq<ReplyView>,
)
    requires
        allowed(target),
        reading_in(first) matches Ok(reading) && !close(
            height_ticks(reading.height_raw),
            target.ticks(),
        ),
        reports.len() > 0,
        forall|i: int|
            0 <= i < reports.len() - 1 ==> (reading_in(#[trigger] reports[i]) matches Ok(reading)
                && reading.speed_raw != 0),
        reading_in(reports.last()) matches Ok(reading) && reading.speed_raw == 0,
    ensures
        ({
            let goal = Goal::MoveTo(target);
            let start = preparation(first, probe, opened, set_up);
            let whole = start + rounds(pauses, reports, reports.len());
            &&& forall|n: nat|
                n < reports.len() ==> after(goal, start + #[trigger] rounds(pauses, reports, n))
                    == command(target)
            &&& after(goal, whole) == end(Outcome::Completed)
            &&& commands(target, whole) == reports.len()
        }),
{
    let start = preparation(first, probe, opened, set_up);
    let k = reports.len();
    let m = (k - 1) as nat;
    lemma_preparation(target, first, probe, opened, set_up);
    assert forall|n: nat| n < k implies after(
        Goal::MoveTo(target),
        start + #[trigger] rounds(pauses, reports, n),
    ) == command(target) by {
        lemma_rounds(target, start, pauses, reports, n);
    }
    lemma_rounds(target, start, pauses, reports, m);
    lemma_round(target, start + rounds(pauses, reports, m), pauses[k - 1], reports[k - 1]);
    assert(start + rounds(pauses, reports, k) =~= (start + rounds(pauses, reports, m)).push(
        ReplyView::Done,
    ).push(pauses[k - 1]).push(reports[k - 1]));
}

/// A desk that is at its target already is not sent anywhere: the first reading
/// completes the movement.
pub proof fn law_desk_at_its_target_is_left_alone(target: Binary64, first: ReplyView)
    requires
        allowed(target),
        reading_in(first) matches Ok(reading) && close(
            height_ticks(reading.height_raw),
            target.ticks(),
        ),
    ensures
        after(Goal::MoveTo(target), seq![first]) == end(Outcome::Completed),
        commands(target, seq![first]) == 0,
{
    let none = Seq::<ReplyView>::empty();
    assert(after(Goal::MoveTo(target), none) == opening(Goal::MoveTo(target)));
    assert(commands(target, none) == 0);
    lemma_one_more(target, none, first);
    assert(none.push(first) =~= seq![first]);
}

/// Waking a desk up: it is asked for a DPG controller; if it has one, that is set up
/// with two writes, whose fate does not matter; then the desk is woken up, and that
/// has to succeed.
pub proof fn law_wake_up_sequence(probe: ReplyView, first: ReplyView, second: ReplyView, last: ReplyView)
    ensures
        after(Goal::WakeUp, seq![]).1 == Request::Probe(UUID_DPG),
        probe is Present ==> {
            &&& after(Goal::WakeUp, seq![probe]).1 == put(
                Stage::OpeningDpg,
                UUID_DPG,
                Payload::DpgOpen,
            ).1
            &&& after(Goal::WakeUp, seq![probe, first]).1 == put(
                Stage::SettingDpg,
                UUID_DPG,
                Payload::DpgSetup,
            ).1
            &&& after(Goal::WakeUp, seq![probe, first, second]).1 == wake_request()
            &&& last is Done <==> after(Goal::WakeUp, seq![probe, first, second, last]) == end(
                Outcome::Completed,
            )
        },
        !(probe is Present) ==> {
            &&& after(Goal::WakeUp, seq![probe]).1 == wake_request()
            &&& last is Done <==> after(Goal::WakeUp, seq![probe, last]) == end(Outcome::Completed)
        },
{
    let goal = Goal::WakeUp;
    assert(seq![probe].drop_last() =~= seq![]);
    assert(seq![probe, first].drop_last() =~= seq![probe]);
    assert(seq![probe, first, second].drop_last() =~= seq![probe, first]);
    assert(seq![probe, first, second, last].drop_last() =~= seq![probe, first, second]);
    assert(seq![probe, last].drop_last() =~= seq![probe]);
    assert(after(goal, seq![]) == opening(goal));
    assert(after(goal, seq![probe]) == following(goal, Stage::ProbingDpg, probe));
    if probe is Present {
        assert(after(goal, seq![probe, first]) == following(goal, Stage::OpeningDpg, first));
        assert(after(goal, seq![probe, first, second]) == following(goal, Stage::SettingDpg, second));
        assert(after(goal, seq![probe, first, second, last]) == following(goal, Stage::Waking, last));
    } else {
        assert(after(goal, seq![probe, last]) == following(goal, Stage::Waking, last));
    }
}

/// Stopping a desk: it is told to stop and to end a movement to a given height,
/// whatever comes back, and that always completes.
pub proof fn law_halt_always_completes(replies: Seq<ReplyView>)
    ensures
        replies.len() == 0 ==> after(Goal::Halt, replies).1 == stop_request(),
        replies.len() == 1 ==> after(Goal::Halt, replies).1 == put(
            Stage::StoppingReference,
            UUID_REFERENCE_INPUT,
            Payload::ReferenceInputStop,
        ).1,
        replies.len() >= 2 ==> after(Goal::Halt, replies) == end(Outcome::Completed),
    decreases replies.len(),
{
    if replies.len() > 0 {
        law_halt_always_completes(replies.drop_last());
    }
    reveal_with_fuel(after, 3);
}

/// Reading a desk takes one request, and its reply decides.
pub proof fn law_measuring_is_one_request(reply: ReplyView)
    ensures
        after(Goal::Measure, seq![]).1 == Request::Read(UUID_HEIGHT),
        after(Goal::Measure, seq![reply]) == match reading_in(reply) {
            Ok(reading) => end(Outcome::Measured(reading)),
            Err(error) => give_up(error),
        },
{
    assert(seq![reply].drop_last() =~= seq![]);
    assert(after(Goal::Measure, seq![]) == opening(Goal::Measure));
}

/// The characteristic that a movement at `stage` reads or writes and depends on.
pub open spec fn needed(stage: Stage) -> Option<u128> {
    match stage {
        Stage::Measuring | Stage::Polling => Some(UUID_HEIGHT),
        Stage::Waking | Stage::Stopping => Some(UUID_COMMAND),
        Stage::Commanding => Some(UUID_REFERENCE_INPUT),
        _ => None,
    }
}

/// A movement ends as soon as something goes wrong that it depends on, and with the
/// error that says what: at every reading, at waking and stopping the desk, and at
/// sending it somewhere. A failing radio is an error from outside, a characteristic
/// that the desk does not have is missing, and a reading in another number of bytes
/// than four is invalid.
pub proof fn law_failure_ends_movement(
    target: Binary64,
    replies: Seq<ReplyView>,
    reply: ReplyView,
)
    requires
        needed(after(Goal::MoveTo(target), replies).0) is Some,
    ensures
        ({
            let goal = Goal::MoveTo(target);
            let stage = after(goal, replies).0;
            let next = after(goal, replies.push(reply));
            &&& reply is Failed ==> next == give_up(DeskError::Outside)
            &&& reply is Absent ==> next == give_up(
                DeskError::CharacteristicMissing(needed(stage)->Some_0),
            )
            &&& reply matches ReplyView::Data(bytes) ==> bytes.len() != 4 && needed(stage) == Some(
                UUID_HEIGHT,
            ) ==> next == give_up(DeskError::InvalidHeightData)
        }),
{
    assert(replies.push(reply).drop_last() =~= replies);
}

/// Only the first thing that is asked can be a first reading.
proof fn lemma_measuring_comes_first(goal: Goal, replies: Seq<ReplyView>)
    ensures
        after(goal, replies).0 is Measuring ==> replies.len() == 0,
        replies.len() == 0 ==> !(after(goal, replies).0 is Polling),
{
}

/// What a desk is asked or told first: whether it has a DPG controller in order to wake
/// it up, for a reading in order to measure it or to move it, and to stop. A desk that
/// is to be moved to a height that is not allowed is asked nothing.
pub proof fn law_first_request(goal: Goal)
    ensures
        match goal {
            Goal::WakeUp => after(goal, seq![]).1 == Request::Probe(UUID_DPG),
            Goal::Measure => after(goal, seq![]).1 == Request::Read(UUID_HEIGHT),
            Goal::Halt => after(goal, seq![]).1 == (Request::Write {
                characteristic: UUID_COMMAND,
                payload: Payload::Stop,
            }),
            Goal::MoveTo(target) => after(goal, seq![]).1 == if allowed(target) {
                Request::Read(UUID_HEIGHT)
            } else {
                Request::Finish(Outcome::GivenUp(DeskError::TargetOutOfRange))
            },
        },
{
    assert(after(goal, seq![]) == opening(goal));
}

/// A DPG controller gets its two writes, the opening one first, and then, whatever came
/// of them, the desk is woken up; so is a desk without one.
pub proof fn law_dpg_controller_is_set_up(goal: Goal, replies: Seq<ReplyView>, reply: ReplyView)
    ensures
        ({
            let asked = after(goal, replies).1;
            let next = after(goal, replies.push(reply)).1;
            let open = Request::Write { characteristic: UUID_DPG, payload: Payload::DpgOpen };
            let set_up = Request::Write { characteristic: UUID_DPG, payload: Payload::DpgSetup };
            let wake = Request::Write { characteristic: UUID_COMMAND, payload: Payload::WakeUp };
            &&& asked is Probe ==> asked == Request::Probe(UUID_DPG) && next == if reply is Present {
                open
            } else {
                wake
            }
            &&& asked == open ==> next == set_up
            &&& asked == set_up ==> next == wake
        }),
{
    lemma_stage_fixes_request(goal, replies);
    assert(replies.push(reply).drop_last() =~= replies);
}

/// A desk that has been woken up is awake, and one that is to move is stopped then; a
/// desk that has been stopped in order to move is sent to its target, and one that is
/// to halt is told to end its movement, whatever came of stopping it, and that is all.
/// A desk that has taken its target is left alone for 200 milliseconds and then asked
/// for a reading.
pub proof fn law_done_writes_lead_on(goal: Goal, replies: Seq<ReplyView>, reply: ReplyView)
    ensures
        ({
            let asked = after(goal, replies).1;
            let next = after(goal, replies.push(reply)).1;
            let wake = Request::Write { characteristic: UUID_COMMAND, payload: Payload::WakeUp };
            let stop = Request::Write { characteristic: UUID_COMMAND, payload: Payload::Stop };
            let end_movement = Request::Write {
                characteristic: UUID_REFERENCE_INPUT,
                payload: Payload::ReferenceInputStop,
            };
            &&& asked == wake && reply is Done ==> next == if goal is MoveTo {
                stop
            } else {
                Request::Finish(Outcome::Completed)
            }
            &&& asked == stop ==> match goal {
                Goal::MoveTo(target) => reply is Done ==> next == (Request::Write {
                    characteristic: UUID_REFERENCE_INPUT,
                    payload: Payload::MoveTo(raw_of(target) as u16),
                }),
                _ => next == end_movement,
            }
            &&& asked == end_movement ==> next == Request::Finish(Outcome::Completed)
            &&& (asked matches Request::Write { payload, .. } && payload is MoveTo) && reply is Done
                ==> next == Request::Wait(200)
            &&& asked is Wait ==> next == Request::Read(UUID_HEIGHT)
        }),
{
    lemma_stage_fixes_request(goal, replies);
    assert(replies.push(reply).drop_last() =~= replies);
}

/// A write that a task depends on and that was not done ends it: with the
/// characteristic, where the desk does not have it, and else with an error from outside.
pub proof fn law_undone_writes_end_a_task(goal: Goal, replies: Seq<ReplyView>, reply: ReplyView)
    requires
        after(goal, replies).1 matches Request::Write { payload, .. } && {
            ||| payload is WakeUp
            ||| payload is Stop && goal is MoveTo
            ||| payload is MoveTo
        },
        !(reply is Done),
    ensures
        after(goal, replies).1 matches Request::Write { characteristic, .. } && after(
            goal,
            replies.push(reply),
        ).1 == Request::Finish(
            Outcome::GivenUp(
                if reply is Absent {
                    DeskError::CharacteristicMissing(characteristic)
                } else {
                    DeskError::Outside
                },
            ),
        ),
{
    lemma_stage_fixes_request(goal, replies);
    assert(replies.push(reply).drop_last() =~= replies);
}

/// What four bytes from a desk lead to. In order to measure it, they are the result: the
/// height in the first two bytes and the speed, in two's complement, in the last two.
/// In order to move it, the first time the height decides whether the desk is where it
/// is to be; later the speed decides whether it is standing still, and if not, it is
/// sent to its target again.
pub proof fn law_readings_decide(goal: Goal, replies: Seq<ReplyView>, bytes: Seq<u8>)
    requires
        after(goal, replies).1 is Read,
        bytes.len() == 4,
    ensures
        after(goal, replies).1 == Request::Read(UUID_HEIGHT),
        ({
            let next = after(goal, replies.push(ReplyView::Data(bytes))).1;
            match goal {
                Goal::MoveTo(target) => if replies.len() == 0 {
                    next == if close(height_ticks((bytes[0] + 256 * bytes[1]) as u16), target.ticks()) {
                        Request::Finish(Outcome::Completed)
                    } else {
                        Request::Probe(UUID_DPG)
                    }
                } else {
                    next == if bytes[2] == 0 && bytes[3] == 0 {
                        Request::Finish(Outcome::Completed)
                    } else {
                        Request::Write {
                            characteristic: UUID_REFERENCE_INPUT,
                            payload: Payload::MoveTo(raw_of(target) as u16),
                        }
                    }
                },
                _ => {
                    &&& next matches Request::Finish(Outcome::Measured(reading))
                    &&& reading.height_raw == bytes[0] + 256 * bytes[1]
                    &&& reading.speed_raw == bytes[2] + 256 * bytes[3] - if bytes[3] >= 0x80 {
                        0x1_0000int
                    } else {
                        0int
                    }
                },
            }
        }),
{
    lemma_stage_fixes_request(goal, replies);
    lemma_measuring_comes_first(goal, replies);
    law_report_is_read_byte_by_byte(bytes);
    let reply = ReplyView::Data(bytes);
    assert(replies.push(reply).drop_last() =~= replies);
}

/// A reading that fails ends a task: a missing characteristic is named, another number
/// of bytes than four is invalid, and anything else is an error from outside.
pub proof fn law_failed_readings_end_a_task(
    goal: Goal,
    replies: Seq<ReplyView>,
    reply: ReplyView,
)
    requires
        after(goal, replies).1 is Read,
        reply matches ReplyView::Data(bytes) ==> bytes.len() != 4,
    ensures
        after(goal, replies.push(reply)).1 == Request::Finish(
            Outcome::GivenUp(
                match reply {
                    ReplyView::Data(_) => DeskError::InvalidHeightData,
                    ReplyView::Absent => DeskError::CharacteristicMissing(UUID_HEIGHT),
                    _ => DeskError::Outside,
                },
            ),
        ),
{
    lemma_stage_fixes_request(goal, replies);
    if let ReplyView::Data(bytes) = reply {
        law_report_is_read_byte_by_byte(bytes);
    }
    assert(replies.push(reply).drop_last() =~= replies);
}

/// A task that has been told how it ended is told nothing more.
pub proof fn law_ended_task_stays_ended(goal: Goal, replies: Seq<ReplyView>, reply: ReplyView)
    requires
        after(goal, replies).1 is Finish,
    ensures
        after(goal, replies.push(reply)) == after(goal, replies),
{
    lemma_stage_fixes_request(goal, replies);
    assert(replies.push(reply).drop_last() =~= replies);
}

/// What comes back from a desk keeps its bytes.
pub proof fn law_reply_keeps_its_bytes(bytes: Vec<u8>)
    ensures
        Reply::Data(bytes)@ == ReplyView::Data(bytes@),
        Reply::Done@ is Done,
        Reply::Present@ is Present,
        Reply::Absent@ is Absent,
        Reply::Failed@ is Failed,
{
}

} // verus!
