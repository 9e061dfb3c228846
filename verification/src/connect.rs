//! Finding a known desk and connecting to it.
//!
//! A [`Connecting`] decides what to ask of the radio next. Whoever owns the radio
//! performs the [`ConnectRequest`] and hands back the [`ConnectReply`].
use vstd::prelude::*;

use crate::error::DeskError;
use crate::motion::{
    following, opening, Goal, Outcome, Reply, ReplyView, Request, Stage, Step, Task,
};
use crate::wire::{Payload, UUID_COMMAND, UUID_DPG};

verus! {

/// How long the desk may take to show up and to be opened, in seconds from the
/// beginning of the scan.
pub const DISCOVERY_TIMEOUT: u64 = 10;

/// How far a connection has come: what it is waiting for.
#[derive(Clone, Copy, Debug, PartialEq, Eq, Structural)]
pub enum ConnectStage {
    /// The adapters to be counted.
    Listing,
    /// The adapter to report events.
    Subscribing,
    /// The adapter to start scanning.
    Scanning,
    /// The next event.
    Listening,
    /// The desk that showed up to be opened.
    Opening,
    /// The adapter to stop scanning.
    StoppingScan,
    /// Whether the desk is connected.
    Checking,
    /// The desk to connect.
    Linking,
    /// The services of the desk to be found.
    Serving,
    /// The desk to wake up, which has come this far.
    Waking(Stage),
    /// Nothing.
    Finished,
}

/// What a connection asks for.
#[derive(Clone, Copy, Debug, PartialEq, Eq)]
pub enum ConnectRequest {
    /// To count the adapters.
    ListAdapters,
    /// To have an adapter, given by its number, report events.
    OpenEvents(usize),
    /// To have that adapter scan for any device.
    StartScan,
    /// To wait for the next event, until so many seconds after the scan began.
    NextEvent(u64),
    /// To open the device that has just shown up, until so many seconds after the
    /// scan began.
    OpenPeripheral(u64),
    /// To have the adapter stop scanning.
    StopScan,
    /// To find out whether the device is connected.
    CheckConnection,
    /// To connect the device.
    Connect,
    /// To find the services of the device.
    DiscoverServices,
    /// To do something with the desk.
    Desk(Request),
    /// To end here: connected, or with an error.
    Finish(Result<(), DeskError>),
}

/// What comes back.
pub enum ConnectReply {
    /// There are so many adapters.
    Adapters(usize),
    /// It has been done.
    Done,
    /// A device with this identifier has shown up.
    Discovered(String),
    /// Something else has happened.
    OtherEvent,
    /// Nothing more is going to happen.
    EventsEnded,
    /// The time for the desk to show up has passed.
    TimedOut,
    /// Whether the device is connected.
    Connected(bool),
    /// What came back from the desk.
    Desk(Reply),
    /// The radio failed.
    Failed,
}

/// Where a connection stands and what it asks for.
pub type ConnectStep = (ConnectStage, ConnectRequest);

/// The connection is at its end.
pub open spec fn conclude(result: Result<(), DeskError>) -> ConnectStep {
    (ConnectStage::Finished, ConnectRequest::Finish(result))
}

/// The connection waits for the next event.
pub open spec fn listen() -> ConnectStep {
    (ConnectStage::Listening, ConnectRequest::NextEvent(DISCOVERY_TIMEOUT))
}

/// The connection looks for the services of the desk.
pub open spec fn serve() -> ConnectStep {
    (ConnectStage::Serving, ConnectRequest::DiscoverServices)
}

/// The last part of a connection is to wake the desk up.
pub open spec fn waking(step: Step) -> ConnectStep {
    match step.1 {
        Request::Finish(Outcome::GivenUp(error)) => conclude(Err(error)),
        Request::Finish(_) => conclude(Ok(())),
        request => (ConnectStage::Waking(step.0), ConnectRequest::Desk(request)),
    }
}

/// How a connection begins.
pub open spec fn connect_opening() -> ConnectStep {
    (ConnectStage::Listing, ConnectRequest::ListAdapters)
}

/// How a connection to the desk `target` goes on. One that has ended has no use for a
/// reply.
pub open spec fn connect_following(
    target: Seq<char>,
    stage: ConnectStage,
    reply: ConnectReply,
) -> ConnectStep {
    match stage {
        ConnectStage::Listing => match reply {
            ConnectReply::Adapters(count) => if count == 0 {
                conclude(Err(DeskError::NoAdapter))
            } else {
                (ConnectStage::Subscribing, ConnectRequest::OpenEvents(0))
            },
            _ => conclude(Err(DeskError::Outside)),
        },
        ConnectStage::Subscribing => if reply is Done {
            (ConnectStage::Scanning, ConnectRequest::StartScan)
        } else {
            conclude(Err(DeskError::Outside))
        },
        ConnectStage::Scanning => if reply is Done {
            listen()
        } else {
            conclude(Err(DeskError::ScanNotStarted))
        },
        ConnectStage::Listening => match reply {
            ConnectReply::Discovered(id) => if id@ == target {
                (ConnectStage::Opening, ConnectRequest::OpenPeripheral(DISCOVERY_TIMEOUT))
            } else {
                listen()
            },
            ConnectReply::EventsEnded => conclude(Err(DeskError::DeskNotFound)),
            ConnectReply::TimedOut => conclude(Err(DeskError::DiscoveryTimeout)),
            _ => listen(),
        },
        ConnectStage::Opening => match reply {
            ConnectReply::Done => (ConnectStage::StoppingScan, ConnectRequest::StopScan),
            ConnectReply::TimedOut => conclude(Err(DeskError::DiscoveryTimeout)),
            _ => listen(),
        },
        ConnectStage::StoppingScan => (ConnectStage::Checking, ConnectRequest::CheckConnection),
        ConnectStage::Checking => match reply {
            ConnectReply::Connected(true) => serve(),
            ConnectReply::Connected(false) => (ConnectStage::Linking, ConnectRequest::Connect),
            _ => conclude(Err(DeskError::Outside)),
        },
        ConnectStage::Linking => if reply is Done {
            serve()
        } else {
            conclude(Err(DeskError::ConnectionFailed))
        },
        ConnectStage::Serving => if reply is Done {
            waking(opening(Goal::WakeUp))
        } else {
            conclude(Err(DeskError::Outside))
        },
        ConnectStage::Waking(at) => match reply {
            ConnectReply::Desk(answer) => waking(following(Goal::WakeUp, at, answer@)),
            _ => waking(following(Goal::WakeUp, at, ReplyView::Failed)),
        },
        ConnectStage::Finished => conclude(Err(DeskError::Outside)),
    }
}

/// A connection on its way.
#[derive(Clone, Copy, Debug, PartialEq, Eq, Structural)]
pub struct Connecting {
    pub stage: ConnectStage,
}

impl Connecting {
    /// Begins a connection.
    pub fn start() -> (r: (Connecting, ConnectRequest))
        ensures
            (r.0.stage, r.1) == connect_opening(),
    {
        (Connecting { stage: ConnectStage::Listing }, ConnectRequest::ListAdapters)
    }

    /// Goes on with a connection to the desk `target` after `reply`.
    pub fn advance(&mut self, target: &str, reply: &ConnectReply) -> (request: ConnectRequest)
        ensures
            (final(self).stage, request) == connect_following(target@, old(self).stage, *reply),
    {
        let (stage, request) = match self.stage {
            ConnectStage::Listing => match reply {
                ConnectReply::Adapters(count) => if *count == 0 {
                    Self::fail(DeskError::NoAdapter)
                } else {
                    (ConnectStage::Subscribing, ConnectRequest::OpenEvents(0))
                },
                _ => Self::fail(DeskError::Outside),
            },
            ConnectStage::Subscribing => match reply {
                ConnectReply::Done => (ConnectStage::Scanning, ConnectRequest::StartScan),
                _ => Self::fail(DeskError::Outside),
            },
            ConnectStage::Scanning => match reply {
                ConnectReply::Done => (ConnectStage::Listening, ConnectRequest::NextEvent(DISCOVERY_TIMEOUT)),
                _ => Self::fail(DeskError::ScanNotStarted),
            },
            ConnectStage::Listening => match reply {
                ConnectReply::Discovered(id) => if *id == target.to_owned() {
                    (ConnectStage::Opening, ConnectRequest::OpenPeripheral(DISCOVERY_TIMEOUT))
                } else {
                    (ConnectStage::Listening, ConnectRequest::NextEvent(DISCOVERY_TIMEOUT))
                },
                ConnectReply::EventsEnded => Self::fail(DeskError::DeskNotFound),
                ConnectReply::TimedOut => Self::fail(DeskError::DiscoveryTimeout),
                _ => (ConnectStage::Listening, ConnectRequest::NextEvent(DISCOVERY_TIMEOUT)),
            },
            ConnectStage::Opening => match reply {
                ConnectReply::Done => (ConnectStage::StoppingScan, ConnectRequest::StopScan),
                ConnectReply::TimedOut => Self::fail(DeskError::DiscoveryTimeout),
                _ => (ConnectStage::Listening, ConnectRequest::NextEvent(DISCOVERY_TIMEOUT)),
            },
            ConnectStage::StoppingScan => (ConnectStage::Checking, ConnectRequest::CheckConnection),
            ConnectStage::Checking => match reply {
                ConnectReply::Connected(true) => (
                    ConnectStage::Serving,
                    ConnectRequest::DiscoverServices,
                ),
                ConnectReply::Connected(false) => (ConnectStage::Linking, ConnectRequest::Connect),
                _ => Self::fail(DeskError::Outside),
            },
            ConnectStage::Linking => match reply {
                ConnectReply::Done => (ConnectStage::Serving, ConnectRequest::DiscoverServices),
                _ => Self::fail(DeskError::ConnectionFailed),
            },
            ConnectStage::Serving => match reply {
                ConnectReply::Done => {
                    let (task, request) = Task::start(Goal::WakeUp);
                    Self::wake(task, request)
                },
                _ => Self::fail(DeskError::Outside),
            },
            ConnectStage::Waking(at) => {
                let mut task: Task = Task { goal: Goal::WakeUp, stage: at };
                let request: Request = match reply {
                    ConnectReply::Desk(answer) => task.advance(answer),
                    _ => task.advance(&Reply::Failed),
                };
                Self::wake(task, request)
            },
            ConnectStage::Finished => Self::fail(DeskError::Outside),
        };
        self.stage = stage;
        request
    }

    fn fail(error: DeskError) -> (r: (ConnectStage, ConnectRequest))
        ensures
            r == conclude(Err(error)),
    {
        (ConnectStage::Finished, ConnectRequest::Finish(Err(error)))
    }

    fn wake(task: Task, request: Request) -> (r: (ConnectStage, ConnectRequest))
        ensures
            r == waking((task.stage, request)),
    {
        match request {
            Request::Finish(Outcome::GivenUp(error)) => Self::fail(error),
            Request::Finish(_) => (ConnectStage::Finished, ConnectRequest::Finish(Ok(()))),
            _ => (ConnectStage::Waking(task.stage), ConnectRequest::Desk(request)),
        }
    }
}

/// Where a connection to the desk `target` stands after `replies`. A connection that
/// has ended is told nothing more and stays as it is.
pub open spec fn connect_after(target: Seq<char>, replies: Seq<ConnectReply>) -> ConnectStep
    decreases replies.len(),
{
    if replies.len() == 0 {
        connect_opening()
    } else {
        let before = connect_after(target, replies.drop_last());
        if before.0 is Finished {
            before
        } else {
            connect_following(target, before.0, replies.last())
        }
    }
}

/// Whether the `i`-th of `replies` came while the connection stood at `stage`.
pub open spec fn came_at(
    target: Seq<char>,
    replies: Seq<ConnectReply>,
    i: int,
    stage: ConnectStage,
) -> bool {
    0 <= i < replies.len() && connect_after(target, replies.take(i)).0 == stage
}

/// Whether the desk `target` was opened, on the `i`-th of `replies`, after it had
/// shown up.
pub open spec fn opened_at(target: Seq<char>, replies: Seq<ConnectReply>, i: int) -> bool {
    &&& i >= 1
    &&& came_at(target, replies, i, ConnectStage::Opening)
    &&& replies[i] is Done
    &&& replies[i - 1] matches ConnectReply::Discovered(id) && id@ == target
}

/// Whether the services of the desk were found on the `i`-th of `replies`.
pub open spec fn served_at(target: Seq<char>, replies: Seq<ConnectReply>, i: int) -> bool {
    came_at(target, replies, i, ConnectStage::Serving) && replies[i] is Done
}

/// Whether the desk was woken up on the `i`-th of `replies`.
pub open spec fn woken_at(target: Seq<char>, replies: Seq<ConnectReply>, i: int) -> bool {
    &&& came_at(target, replies, i, ConnectStage::Waking(Stage::Waking))
    &&& replies[i] matches ConnectReply::Desk(answer) && answer@ is Done
}

/// The request matches the stage, and a desk that is being woken up is at one of the
/// stages of that.
proof fn lemma_connect_stage(target: Seq<char>, replies: Seq<ConnectReply>)
    ensures
        ({
            let (stage, request) = connect_after(target, replies);
            match stage {
                ConnectStage::Listing => request is ListAdapters,
                ConnectStage::Subscribing => request == ConnectRequest::OpenEvents(0),
                ConnectStage::Scanning => request is StartScan,
                ConnectStage::Listening => request == ConnectRequest::NextEvent(DISCOVERY_TIMEOUT),
                ConnectStage::Opening => request == ConnectRequest::OpenPeripheral(
                    DISCOVERY_TIMEOUT,
                ),
                ConnectStage::StoppingScan => request is StopScan,
                ConnectStage::Checking => request is CheckConnection,
                ConnectStage::Linking => request is Connect,
                ConnectStage::Serving => request is DiscoverServices,
                ConnectStage::Waking(at) => request is Desk && (at is ProbingDpg || at is OpeningDpg
                    || at is SettingDpg || at is Waking),
                ConnectStage::Finished => request is Finish,
            }
        }),
    decreases replies.len(),
{
    if replies.len() > 0 {
        lemma_connect_stage(target, replies.drop_last());
    }
}

/// More replies do not change where earlier ones came.
proof fn lemma_came_at_stays(target: Seq<char>, replies: Seq<ConnectReply>, i: int, stage: ConnectStage)
    requires
        replies.len() > 0,
        came_at(target, replies.drop_last(), i, stage),
    ensures
        came_at(target, replies, i, stage),
        replies[i] == replies.drop_last()[i],
        i >= 1 ==> replies[i - 1] == replies.drop_last()[i - 1],
{
    assert(replies.drop_last().take(i) =~= replies.take(i));
}

/// A device is opened only where the desk asked for has just shown up.
pub proof fn law_only_the_desk_asked_for_is_opened(target: Seq<char>, replies: Seq<ConnectReply>)
    requires
        connect_after(target, replies).1 is OpenPeripheral,
    ensures
        replies.len() > 0,
        replies.last() matches ConnectReply::Discovered(id) && id@ == target,
{
    lemma_connect_stage(target, replies);
    lemma_connect_stage(target, replies.drop_last());
}

/// Whatever is done to a device, from asking whether it is connected to waking it
/// up, is done to the desk asked for: it has shown up and has been opened.
pub proof fn law_only_the_desk_asked_for_is_used(target: Seq<char>, replies: Seq<ConnectReply>)
    requires
        ({
            let request = connect_after(target, replies).1;
            ||| request is StopScan
            ||| request is CheckConnection
            ||| request is Connect
            ||| request is DiscoverServices
            ||| request is Desk
        }),
    ensures
        exists|i: int| opened_at(target, replies, i),
    decreases replies.len(),
{
    lemma_connect_stage(target, replies);
    let n = replies.len() as int;
    if n > 0 {
        let prior = replies.drop_last();
        lemma_connect_stage(target, prior);
        assert(replies.take(n - 1) =~= prior);
        if connect_after(target, prior).0 is Opening {
            law_only_the_desk_asked_for_is_opened(target, prior);
            assert(replies[n - 2] == prior.last());
            assert(opened_at(target, replies, n - 1));
        } else {
            law_only_the_desk_asked_for_is_used(target, prior);
            let i = choose|i: int| opened_at(target, prior, i);
            lemma_came_at_stays(target, replies, i, ConnectStage::Opening);
            assert(opened_at(target, replies, i));
        }
    }
}

/// A desk is woken up only after its services have been found.
proof fn lemma_served_before_woken(target: Seq<char>, replies: Seq<ConnectReply>)
    requires
        connect_after(target, replies).0 is Waking,
    ensures
        exists|i: int| served_at(target, replies, i),
    decreases replies.len(),
{
    let n = replies.len() as int;
    if n > 0 {
        let prior = replies.drop_last();
        lemma_connect_stage(target, prior);
        assert(replies.take(n - 1) =~= prior);
        if connect_after(target, prior).0 is Serving {
            assert(served_at(target, replies, n - 1));
        } else {
            lemma_served_before_woken(target, prior);
            let i = choose|i: int| served_at(target, prior, i);
            lemma_came_at_stays(target, replies, i, ConnectStage::Serving);
            assert(served_at(target, replies, i));
        }
    }
}

/// A connection succeeds only after the desk asked for has been opened, its services
/// have been found and it has been woken up, in this order.
pub proof fn law_connected_desk_is_awake(target: Seq<char>, replies: Seq<ConnectReply>)
    requires
        connect_after(target, replies) == conclude(Ok(())),
    ensures
        exists|i: int, j: int, k: int|
            i < j < k && #[trigger] opened_at(target, replies, i) && #[trigger] served_at(
                target,
                replies,
                j,
            ) && #[trigger] woken_at(target, replies, k),
    decreases replies.len(),
{
    let n = replies.len() as int;
    assert(n > 0);
    let prior = replies.drop_last();
    lemma_connect_stage(target, prior);
    assert(replies.take(n - 1) =~= prior);
    if connect_after(target, prior).0 is Finished {
        law_connected_desk_is_awake(target, prior);
        let (i, j, k) = choose|i: int, j: int, k: int|
            i < j < k && #[trigger] opened_at(target, prior, i) && #[trigger] served_at(
                target,
                prior,
                j,
            ) && #[trigger] woken_at(target, prior, k);
        lemma_came_at_stays(target, replies, i, ConnectStage::Opening);
        lemma_came_at_stays(target, replies, j, ConnectStage::Serving);
        lemma_came_at_stays(target, replies, k, ConnectStage::Waking(Stage::Waking));
        assert(opened_at(target, replies, i));
        assert(served_at(target, replies, j));
        assert(woken_at(target, replies, k));
    } else {
        assert(woken_at(target, replies, n - 1));
        lemma_served_before_woken(target, prior);
        let j = choose|j: int| served_at(target, prior, j);
        let early = prior.take(j);
        lemma_connect_stage(target, early);
        law_only_the_desk_asked_for_is_used(target, early);
        let i = choose|i: int| opened_at(target, early, i);
        assert(early.take(i) =~= replies.take(i));
        assert(opened_at(target, replies, i));
        lemma_came_at_stays(target, replies, j, ConnectStage::Serving);
        assert(served_at(target, replies, j));
    }
}

/// Whether the desk is awaited all through `replies`: other devices show up, other
/// things happen, or the desk shows up but cannot be opened.
pub open spec fn awaits(target: Seq<char>, replies: Seq<ConnectReply>) -> bool
    decreases replies.len(),
{
    let n = replies.len() as int;
    ||| n == 0
    ||| n > 0 && awaits(target, replies.take(n - 1)) && ({
        ||| replies[n - 1] is OtherEvent
        ||| replies[n - 1] matches ConnectReply::Discovered(id) && id@ != target
    })
    ||| n > 1 && awaits(target, replies.take(n - 2)) && replies[n - 1] is Failed && (replies[n - 2]
        matches ConnectReply::Discovered(id) && id@ == target)
}

/// Whether `replies` say that the desk is connected: it was already, or it is now.
pub open spec fn links(replies: Seq<ConnectReply>) -> bool {
    ||| replies == seq![ConnectReply::Connected(true)]
    ||| replies == seq![ConnectReply::Connected(false), ConnectReply::Done]
}

/// What a reply says about the desk.
pub open spec fn from_desk(reply: ConnectReply) -> ReplyView {
    match reply {
        ConnectReply::Desk(answer) => answer@,
        _ => ReplyView::Failed,
    }
}

/// Whether `replies` say that the desk has been woken up: it has no DPG controller, or
/// there have been two more replies about that; and the last one is that it is done.
pub open spec fn wakes(replies: Seq<ConnectReply>) -> bool {
    &&& replies.len() == if from_desk(replies[0]) is Present {
        4nat
    } else {
        2nat
    }
    &&& from_desk(replies.last()) is Done
}

/// One reply more is one step further.
proof fn lemma_one_more(target: Seq<char>, replies: Seq<ConnectReply>, reply: ConnectReply)
    requires
        !(connect_after(target, replies).0 is Finished),
    ensures
        connect_after(target, replies.push(reply)) == connect_following(
            target,
            connect_after(target, replies).0,
            reply,
        ),
{
    assert(replies.push(reply).drop_last() =~= replies);
}

/// As long as the desk is awaited, the connection listens.
proof fn lemma_awaiting(target: Seq<char>, start: Seq<ConnectReply>, waiting: Seq<ConnectReply>)
    requires
        connect_after(target, start) == listen(),
        awaits(target, waiting),
    ensures
        connect_after(target, start + waiting) == listen(),
    decreases waiting.len(),
{
    let n = waiting.len() as int;
    if n == 0 {
        assert(start + waiting =~= start);
    } else if awaits(target, waiting.take(n - 1)) && (waiting[n - 1] is OtherEvent || (waiting[n
        - 1] matches ConnectReply::Discovered(id) && id@ != target)) {
        lemma_awaiting(target, start, waiting.take(n - 1));
        lemma_one_more(target, start + waiting.take(n - 1), waiting[n - 1]);
        assert(start + waiting =~= (start + waiting.take(n - 1)).push(waiting[n - 1]));
    } else {
        let before = start + waiting.take(n - 2);
        lemma_awaiting(target, start, waiting.take(n - 2));
        lemma_one_more(target, before, waiting[n - 2]);
        lemma_one_more(target, before.push(waiting[n - 2]), waiting[n - 1]);
        assert(start + waiting =~= before.push(waiting[n - 2]).push(waiting[n - 1]));
    }
}

/// A connected desk is looked at for its services.
proof fn lemma_linking(target: Seq<char>, start: Seq<ConnectReply>, linking: Seq<ConnectReply>)
    requires
        connect_after(target, start).0 is Checking,
        links(linking),
    ensures
        connect_after(target, start + linking) == serve(),
{
    lemma_one_more(target, start, linking[0]);
    if linking.len() == 1 {
        assert(start + linking =~= start.push(linking[0]));
    } else {
        lemma_one_more(target, start.push(linking[0]), linking[1]);
        assert(start + linking =~= start.push(linking[0]).push(linking[1]));
    }
}

/// A desk that has been woken up is connected.
proof fn lemma_waking(target: Seq<char>, start: Seq<ConnectReply>, wakening: Seq<ConnectReply>)
    requires
        connect_after(target, start).0 == ConnectStage::Waking(Stage::ProbingDpg),
        wakes(wakening),
    ensures
        connect_after(target, start + wakening) == conclude(Ok(())),
{
    let probed = start.push(wakening[0]);
    lemma_one_more(target, start, wakening[0]);
    if from_desk(wakening[0]) is Present {
        let opened = probed.push(wakening[1]);
        let set_up = opened.push(wakening[2]);
        lemma_one_more(target, probed, wakening[1]);
        lemma_one_more(target, opened, wakening[2]);
        lemma_one_more(target, set_up, wakening[3]);
        assert(start + wakening =~= set_up.push(wakening[3]));
    } else {
        lemma_one_more(target, probed, wakening[1]);
        assert(start + wakening =~= probed.push(wakening[1]));
    }
}

/// When a connection succeeds: there is an adapter, it reports events and scans; the
/// desk is awaited until it shows up and can be opened; it is connected, or is
/// connected now; its services are found; and it is woken up. Whether the adapter
/// stops scanning does not matter.
pub proof fn law_connection_succeeds(
    target: Seq<char>,
    adapters: usize,
    waiting: Seq<ConnectReply>,
    id: String,
    stopped: ConnectReply,
    linking: Seq<ConnectReply>,
    wakening: Seq<ConnectReply>,
)
    requires
        adapters > 0,
        awaits(target, waiting),
        id@ == target,
        links(linking),
        wakes(wakening),
    ensures
        connect_after(
            target,
            seq![ConnectReply::Adapters(adapters), ConnectReply::Done, ConnectReply::Done] + waiting
                + seq![ConnectReply::Discovered(id), ConnectReply::Done, stopped] + linking
                + seq![ConnectReply::Done] + wakening,
        ) == conclude(Ok(())),
{
    let none = Seq::<ConnectReply>::empty();
    let listed = none.push(ConnectReply::Adapters(adapters));
    let subscribed = listed.push(ConnectReply::Done);
    let begun = seq![ConnectReply::Adapters(adapters), ConnectReply::Done, ConnectReply::Done];
    assert(connect_after(target, none) == connect_opening());
    lemma_one_more(target, none, ConnectReply::Adapters(adapters));
    lemma_one_more(target, listed, ConnectReply::Done);
    lemma_one_more(target, subscribed, ConnectReply::Done);
    assert(subscribed.push(ConnectReply::Done) =~= begun);

    lemma_awaiting(target, begun, waiting);
    let awaited = begun + waiting;
    let shown = awaited.push(ConnectReply::Discovered(id));
    let opened = shown.push(ConnectReply::Done);
    let ready = awaited + seq![ConnectReply::Discovered(id), ConnectReply::Done, stopped];
    lemma_one_more(target, awaited, ConnectReply::Discovered(id));
    lemma_one_more(target, shown, ConnectReply::Done);
    lemma_one_more(target, opened, stopped);
    assert(opened.push(stopped) =~= ready);

    lemma_linking(target, ready, linking);
    lemma_one_more(target, ready + linking, ConnectReply::Done);
    let served = ready + linking + seq![ConnectReply::Done];
    assert((ready + linking).push(ConnectReply::Done) =~= served);
    lemma_waking(target, served, wakening);
}

/// While the desk is awaited, other devices and other events change nothing, and
/// neither does a desk that cannot be opened.
pub proof fn law_other_events_are_ignored(target: Seq<char>, reply: ConnectReply)
    ensures
        (reply matches ConnectReply::Discovered(id) && id@ != target) || reply is OtherEvent
            ==> connect_following(target, listen().0, reply) == listen(),
        reply is Failed ==> connect_following(target, ConnectStage::Opening, reply) == listen(),
{
}

/// Whenever the desk is awaited, and whenever it is opened, it has until ten seconds
/// after the beginning of the scan; once that time has passed, the connection ends
/// with the error that says so.
pub proof fn law_desk_has_ten_seconds_to_show_up(target: Seq<char>, replies: Seq<ConnectReply>)
    ensures
        connect_after(target, replies).1 matches ConnectRequest::NextEvent(seconds) ==> seconds
            == 10,
        connect_after(target, replies).1 matches ConnectRequest::OpenPeripheral(seconds)
            ==> seconds == 10,
        connect_after(target, replies).1 is NextEvent || connect_after(target, replies).1
            is OpenPeripheral ==> connect_after(target, replies.push(ConnectReply::TimedOut))
            == conclude(Err(DeskError::DiscoveryTimeout)),
{
    lemma_connect_stage(target, replies);
    assert(replies.push(ConnectReply::TimedOut).drop_last() =~= replies);
}

/// As soon as the desk has been opened the scan is stopped.
pub proof fn law_scan_stops_once_the_desk_is_opened(target: Seq<char>)
    ensures
        connect_following(target, ConnectStage::Opening, ConnectReply::Done).1 is StopScan,
{
}

/// A connected desk is not connected again, and whether the adapter stopped scanning
/// does not matter.
pub proof fn law_connected_desk_is_left_connected(target: Seq<char>, reply: ConnectReply)
    ensures
        connect_following(target, ConnectStage::Checking, ConnectReply::Connected(true)).1
            is DiscoverServices,
        connect_following(target, ConnectStage::Checking, ConnectReply::Connected(false)).1
            is Connect,
        connect_following(target, ConnectStage::StoppingScan, reply).1 is CheckConnection,
{
}

/// Before the desk is awaited: the adapters are counted, the first one is taken, has its
/// events reported and scans. Without one there is nothing to do; what else goes wrong is
/// an error from outside, but for a scan that does not start, which has its own.
pub proof fn law_scan_is_prepared(
    target: Seq<char>,
    replies: Seq<ConnectReply>,
    reply: ConnectReply,
)
    ensures
        connect_after(target, seq![]).1 == ConnectRequest::ListAdapters,
        ({
            let asked = connect_after(target, replies).1;
            let next = connect_after(target, replies.push(reply)).1;
            &&& asked is ListAdapters ==> next == match reply {
                ConnectReply::Adapters(count) => if count == 0 {
                    ConnectRequest::Finish(Err(DeskError::NoAdapter))
                } else {
                    ConnectRequest::OpenEvents(0)
                },
                _ => ConnectRequest::Finish(Err(DeskError::Outside)),
            }
            &&& asked is OpenEvents ==> next == if reply is Done {
                ConnectRequest::StartScan
            } else {
                ConnectRequest::Finish(Err(DeskError::Outside))
            }
            &&& asked is StartScan ==> next == if reply is Done {
                ConnectRequest::NextEvent(10)
            } else {
                ConnectRequest::Finish(Err(DeskError::ScanNotStarted))
            }
        }),
{
    lemma_connect_stage(target, replies);
    assert(connect_after(target, seq![]) == connect_opening());
    assert(replies.push(reply).drop_last() =~= replies);
}

/// While the desk is awaited: the desk itself is opened, whatever else happens is passed
/// over, and no more events and no more time are errors. A desk that was opened stops
/// the scan, and one that could not be opened is awaited again.
pub proof fn law_desk_is_awaited(
    target: Seq<char>,
    replies: Seq<ConnectReply>,
    reply: ConnectReply,
)
    ensures
        ({
            let asked = connect_after(target, replies).1;
            let next = connect_after(target, replies.push(reply)).1;
            &&& asked is NextEvent ==> next == match reply {
                ConnectReply::Discovered(id) => if id@ == target {
                    ConnectRequest::OpenPeripheral(10)
                } else {
                    ConnectRequest::NextEvent(10)
                },
                ConnectReply::EventsEnded => ConnectRequest::Finish(Err(DeskError::DeskNotFound)),
                ConnectReply::TimedOut => ConnectRequest::Finish(Err(DeskError::DiscoveryTimeout)),
                _ => ConnectRequest::NextEvent(10),
            }
            &&& asked is OpenPeripheral ==> next == match reply {
                ConnectReply::Done => ConnectRequest::StopScan,
                ConnectReply::TimedOut => ConnectRequest::Finish(Err(DeskError::DiscoveryTimeout)),
                _ => ConnectRequest::NextEvent(10),
            }
        }),
{
    lemma_connect_stage(target, replies);
    assert(replies.push(reply).drop_last() =~= replies);
}

/// Once the desk is open: it is connected unless it is connected already, its services
/// are found, and it is asked for a DPG controller. A connection that is refused has its
/// own error; what else goes wrong is an error from outside.
pub proof fn law_open_desk_is_connected(
    target: Seq<char>,
    replies: Seq<ConnectReply>,
    reply: ConnectReply,
)
    ensures
        ({
            let asked = connect_after(target, replies).1;
            let next = connect_after(target, replies.push(reply)).1;
            &&& asked is StopScan ==> next == ConnectRequest::CheckConnection
            &&& asked is CheckConnection ==> next == match reply {
                ConnectReply::Connected(connected) => if connected {
                    ConnectRequest::DiscoverServices
                } else {
                    ConnectRequest::Connect
                },
                _ => ConnectRequest::Finish(Err(DeskError::Outside)),
            }
            &&& asked is Connect ==> next == if reply is Done {
                ConnectRequest::DiscoverServices
            } else {
                ConnectRequest::Finish(Err(DeskError::ConnectionFailed))
            }
            &&& asked is DiscoverServices ==> next == if reply is Done {
                ConnectRequest::Desk(Request::Probe(UUID_DPG))
            } else {
                ConnectRequest::Finish(Err(DeskError::Outside))
            }
        }),
{
    lemma_connect_stage(target, replies);
    assert(replies.push(reply).drop_last() =~= replies);
}

/// Last of all the desk is woken up: a DPG controller gets its two writes, whatever
/// comes of them, and then the desk has to take the command. Only that connects it.
pub proof fn law_connected_desk_is_woken_up(
    target: Seq<char>,
    replies: Seq<ConnectReply>,
    reply: ConnectReply,
)
    requires
        connect_after(target, replies).1 is Desk,
    ensures
        ({
            let asked = connect_after(target, replies).1->Desk_0;
            let next = connect_after(target, replies.push(reply)).1;
            let open = Request::Write { characteristic: UUID_DPG, payload: Payload::DpgOpen };
            let set_up = Request::Write { characteristic: UUID_DPG, payload: Payload::DpgSetup };
            let wake = Request::Write { characteristic: UUID_COMMAND, payload: Payload::WakeUp };
            let answer = match reply {
                ConnectReply::Desk(answer) => answer,
                _ => Reply::Failed,
            };
            &&& asked == Request::Probe(UUID_DPG) || asked == open || asked == set_up || asked
                == wake
            &&& asked is Probe ==> next == ConnectRequest::Desk(
                if answer is Present {
                    open
                } else {
                    wake
                },
            )
            &&& asked == open ==> next == ConnectRequest::Desk(set_up)
            &&& asked == set_up ==> next == ConnectRequest::Desk(wake)
            &&& asked == wake ==> next == ConnectRequest::Finish(
                match answer {
                    Reply::Done => Ok(()),
                    Reply::Absent => Err(DeskError::CharacteristicMissing(UUID_COMMAND)),
                    _ => Err(DeskError::Outside),
                },
            )
        }),
{
    lemma_connect_stage(target, replies);
    lemma_waking_request(target, replies);
    assert(replies.push(reply).drop_last() =~= replies);
}

/// What a desk that is being woken up is asked matches how far that has come.
proof fn lemma_waking_request(target: Seq<char>, replies: Seq<ConnectReply>)
    ensures
        connect_after(target, replies).0 matches ConnectStage::Waking(at)
            ==> connect_after(target, replies).1 == ConnectRequest::Desk(
            match at {
                Stage::ProbingDpg => Request::Probe(UUID_DPG),
                Stage::OpeningDpg => Request::Write {
                    characteristic: UUID_DPG,
                    payload: Payload::DpgOpen,
                },
                Stage::SettingDpg => Request::Write {
                    characteristic: UUID_DPG,
                    payload: Payload::DpgSetup,
                },
                _ => Request::Write { characteristic: UUID_COMMAND, payload: Payload::WakeUp },
            },
        ),
    decreases replies.len(),
{
    if replies.len() > 0 {
        lemma_connect_stage(target, replies);
        lemma_connect_stage(target, replies.drop_last());
        lemma_waking_request(target, replies.drop_last());
    }
}

/// A connection that has ended is told nothing more.
pub proof fn law_ended_connection_stays_ended(
    target: Seq<char>,
    replies: Seq<ConnectReply>,
    reply: ConnectReply,
)
    requires
        connect_after(target, replies).1 is Finish,
    ensures
        connect_after(target, replies.push(reply)) == connect_after(target, replies),
{
    lemma_connect_stage(target, replies);
    assert(replies.push(reply).drop_last() =~= replies);
}

} // verus!
