//! Looking for an unknown desk.
//!
//! A [`Discovering`] decides what to ask of the radio next. Whoever owns the radio
//! performs the [`DiscoverRequest`] and hands back the [`DiscoverReply`].
use vstd::prelude::*;

use crate::error::DeskError;
use crate::wire::UUID_ADV_SVC;

verus! {

/// How long desks are given to show up, in milliseconds.
pub const SCAN_TIME: u64 = 3000;

/// A desk that has been found.
pub struct DiscoveredDesk {
    /// What the platform calls the desk: a UUID on macOS, a MAC address elsewhere.
    pub device_id: String,
    /// What the desk calls itself, if it does.
    pub name: Option<String>,
    /// The Bluetooth address, which means little on macOS.
    pub address: String,
}

/// What is known of a device in reach.
pub struct Properties {
    /// What the platform calls the device.
    pub device_id: String,
    /// What the device calls itself, if it does.
    pub name: Option<String>,
    /// The Bluetooth address.
    pub address: String,
    /// The services that the device advertises.
    pub services: Vec<u128>,
}

/// How far a search has come: what it is waiting for.
#[derive(Clone, Copy, Debug, PartialEq, Eq, Structural)]
pub enum DiscoverStage {
    /// The adapters to be counted.
    Listing,
    /// The adapter to start scanning.
    Scanning,
    /// The devices to show up.
    Settling,
    /// The devices to be counted.
    Enumerating,
    /// The properties of one of `count` devices.
    Inspecting { at: usize, count: usize },
    /// Nothing.
    Finished,
}

/// What a search asks for.
pub enum DiscoverRequest {
    /// To count the adapters.
    ListAdapters,
    /// To have an adapter, given by its number, scan for devices with a service.
    StartScan { adapter: usize, service: u128 },
    /// To let some milliseconds pass.
    Wait(u64),
    /// To count the devices that the adapter knows.
    ListPeripherals,
    /// To look at a device, given by its number.
    Inspect(usize),
    /// To end here: with a desk, without one, or with an error.
    Finish(Result<Option<DiscoveredDesk>, DeskError>),
}

/// What comes back.
pub enum DiscoverReply {
    /// There are so many adapters.
    Adapters(usize),
    /// It has been done.
    Done,
    /// There are so many devices.
    Peripherals(usize),
    /// What is known of the device, if anything is.
    Properties(Option<Properties>),
    /// The radio failed.
    Failed,
}

/// Where a search stands and what it asks for.
pub type DiscoverStep = (DiscoverStage, DiscoverRequest);

/// The search is at its end.
pub open spec fn report(result: Result<Option<DiscoveredDesk>, DeskError>) -> DiscoverStep {
    (DiscoverStage::Finished, DiscoverRequest::Finish(result))
}

/// Whether a device advertises the service of a desk.
pub open spec fn is_desk(properties: Properties) -> bool {
    properties.services@.contains(UUID_ADV_SVC)
}

/// What is reported of a device.
pub open spec fn described(properties: Properties) -> DiscoveredDesk {
    DiscoveredDesk {
        device_id: properties.device_id,
        name: properties.name,
        address: properties.address,
    }
}

/// The search looks at the device with the number `at`, if there is one.
pub open spec fn inspect(at: int, count: usize) -> DiscoverStep {
    if at < count {
        (
            DiscoverStage::Inspecting { at: at as usize, count },
            DiscoverRequest::Inspect(at as usize),
        )
    } else {
        report(Ok(None))
    }
}

/// How a search begins.
pub open spec fn discover_opening() -> DiscoverStep {
    (DiscoverStage::Listing, DiscoverRequest::ListAdapters)
}

/// How a search goes on. One that has ended has no use for a reply.
pub open spec fn discover_following(stage: DiscoverStage, reply: DiscoverReply) -> DiscoverStep {
    match stage {
        DiscoverStage::Listing => match reply {
            DiscoverReply::Adapters(count) => if count == 0 {
                report(Err(DeskError::NoAdapter))
            } else {
                (
                    DiscoverStage::Scanning,
                    DiscoverRequest::StartScan { adapter: 0, service: UUID_ADV_SVC },
                )
            },
            _ => report(Err(DeskError::Outside)),
        },
        DiscoverStage::Scanning => if reply is Done {
            (DiscoverStage::Settling, DiscoverRequest::Wait(SCAN_TIME))
        } else {
            report(Err(DeskError::Outside))
        },
        DiscoverStage::Settling => (DiscoverStage::Enumerating, DiscoverRequest::ListPeripherals),
        DiscoverStage::Enumerating => match reply {
            DiscoverReply::Peripherals(count) => inspect(0, count),
            _ => report(Err(DeskError::Outside)),
        },
        DiscoverStage::Inspecting { at, count } => match reply {
            DiscoverReply::Properties(Some(properties)) => if is_desk(properties) {
                report(Ok(Some(described(properties))))
            } else {
                inspect(at + 1, count)
            },
            DiscoverReply::Properties(None) => inspect(at + 1, count),
            _ => report(Err(DeskError::Outside)),
        },
        DiscoverStage::Finished => report(Err(DeskError::Outside)),
    }
}

/// Whether `services` holds the service of a desk.
fn advertises_desk(services: &Vec<u128>) -> (r: bool)
    ensures
        r == services@.contains(UUID_ADV_SVC),
{
    let mut at: usize = 0;
    while at < services.len()
        invariant
            at <= services@.len(),
            forall|i: int| 0 <= i < at ==> services@[i] != UUID_ADV_SVC,
        decreases services@.len() - at,
    {
        if services[at] == UUID_ADV_SVC {
            return true;
        }
        at = at + 1;
    }
    false
}

/// A search on its way.
#[derive(Clone, Copy, Debug, PartialEq, Eq, Structural)]
pub struct Discovering {
    pub stage: DiscoverStage,
}

impl Discovering {
    /// A search that looks at a device has that device.
    pub open spec fn well_formed(self) -> bool {
        self.stage matches DiscoverStage::Inspecting { at, count } ==> at < count
    }

    /// Begins a search.
    pub fn start() -> (r: (Discovering, DiscoverRequest))
        ensures
            (r.0.stage, r.1) == discover_opening(),
            r.0.well_formed(),
    {
        (Discovering { stage: DiscoverStage::Listing }, DiscoverRequest::ListAdapters)
    }

    /// Goes on with a search after `reply`.
    pub fn advance(&mut self, reply: DiscoverReply) -> (request: DiscoverRequest)
        ensures
            (final(self).stage, request) == discover_following(old(self).stage, reply),
            final(self).well_formed(),
    {
        let (stage, request) = match self.stage {
            DiscoverStage::Listing => match reply {
                DiscoverReply::Adapters(count) => if count == 0 {
                    Self::fail(DeskError::NoAdapter)
                } else {
                    (
                        DiscoverStage::Scanning,
                        DiscoverRequest::StartScan { adapter: 0, service: UUID_ADV_SVC },
                    )
                },
                _ => Self::fail(DeskError::Outside),
            },
            DiscoverStage::Scanning => match reply {
                DiscoverReply::Done => (DiscoverStage::Settling, DiscoverRequest::Wait(SCAN_TIME)),
                _ => Self::fail(DeskError::Outside),
            },
            DiscoverStage::Settling => (
                DiscoverStage::Enumerating,
                DiscoverRequest::ListPeripherals,
            ),
            DiscoverStage::Enumerating => match reply {
                DiscoverReply::Peripherals(count) => Self::look(0, count),
                _ => Self::fail(DeskError::Outside),
            },
            DiscoverStage::Inspecting { at, count } => match reply {
                DiscoverReply::Properties(Some(properties)) => if advertises_desk(
                    &properties.services,
                ) {
                    (
                        DiscoverStage::Finished,
                        DiscoverRequest::Finish(
                            Ok(
                                Some(
                                    DiscoveredDesk {
                                        device_id: properties.device_id,
                                        name: properties.name,
                                        address: properties.address,
                                    },
                                ),
                            ),
                        ),
                    )
                } else {
                    Self::look_after(at, count)
                },
                DiscoverReply::Properties(None) => Self::look_after(at, count),
                _ => Self::fail(DeskError::Outside),
            },
            DiscoverStage::Finished => Self::fail(DeskError::Outside),
        };
        self.stage = stage;
        request
    }

    fn fail(error: DeskError) -> (r: (DiscoverStage, DiscoverRequest))
        ensures
            r == report(Err(error)),
    {
        (DiscoverStage::Finished, DiscoverRequest::Finish(Err(error)))
    }

    fn look_after(at: usize, count: usize) -> (r: (DiscoverStage, DiscoverRequest))
        ensures
            r == inspect(at + 1, count),
    {
        if at < count {
            Self::look(at + 1, count)
        } else {
            (DiscoverStage::Finished, DiscoverRequest::Finish(Ok(None)))
        }
    }

    fn look(at: usize, count: usize) -> (r: (DiscoverStage, DiscoverRequest))
        ensures
            r == inspect(at as int, count),
    {
        if at < count {
            (DiscoverStage::Inspecting { at, count }, DiscoverRequest::Inspect(at))
        } else {
            (DiscoverStage::Finished, DiscoverRequest::Finish(Ok(None)))
        }
    }
}

/// Where a search stands after `replies`. A search that has ended is told nothing more
/// and stays as it is.
pub open spec fn discover_after(replies: Seq<DiscoverReply>) -> DiscoverStep
    decreases replies.len(),
{
    if replies.len() == 0 {
        discover_opening()
    } else {
        let before = discover_after(replies.drop_last());
        if before.0 is Finished {
            before
        } else {
            discover_following(before.0, replies.last())
        }
    }
}

/// Whether a reply describes a desk.
pub open spec fn shows_desk(reply: DiscoverReply) -> bool {
    reply matches DiscoverReply::Properties(Some(properties)) && properties.services@.contains(
        UUID_ADV_SVC,
    )
}

/// What the replies up to a stage of a search have been. A search begins with four
/// replies; then it looks at one device after the other.
proof fn lemma_discover_stage(replies: Seq<DiscoverReply>)
    ensures
        match discover_after(replies).0 {
            DiscoverStage::Listing => replies.len() == 0,
            DiscoverStage::Scanning => replies.len() == 1,
            DiscoverStage::Settling => replies.len() == 2,
            DiscoverStage::Enumerating => replies.len() == 3,
            DiscoverStage::Inspecting { at, count } => {
                &&& replies.len() == 4 + at
                &&& at < count
                &&& replies[3] == DiscoverReply::Peripherals(count)
                &&& discover_after(replies).1 == DiscoverRequest::Inspect(at)
                &&& forall|i: int|
                    4 <= i < replies.len() ==> #[trigger] replies[i] is Properties && !shows_desk(
                        replies[i],
                    )
            },
            DiscoverStage::Finished => true,
        },
    decreases replies.len(),
{
    if replies.len() > 0 {
        let prior = replies.drop_last();
        lemma_discover_stage(prior);
        assert forall|i: int| 0 <= i < prior.len() implies #[trigger] replies[i] == prior[i] by {}
    }
}

/// A search that finds a desk reports the first device that advertises the service
/// of a desk: its identifier as the identifier, its name as the name and its address as
/// the address.
pub proof fn law_first_desk_is_reported(replies: Seq<DiscoverReply>, desk: DiscoveredDesk)
    requires
        discover_after(replies).1 == DiscoverRequest::Finish(Ok(Some(desk))),
    ensures
        exists|n: int|
            {
                &&& 4 <= n < replies.len()
                &&& #[trigger] replies[n] matches DiscoverReply::Properties(Some(properties))
                &&& is_desk(properties)
                &&& properties.services@.contains(UUID_ADV_SVC)
                &&& desk == described(properties)
                &&& desk.device_id == properties.device_id
                &&& desk.name == properties.name
                &&& desk.address == properties.address
                &&& forall|i: int| 4 <= i < n ==> !shows_desk(#[trigger] replies[i])
            },
    decreases replies.len(),
{
    let n = replies.len() as int;
    assert(n > 0);
    let prior = replies.drop_last();
    assert forall|i: int| 0 <= i < prior.len() implies #[trigger] replies[i] == prior[i] by {}
    if discover_after(prior).0 is Finished {
        law_first_desk_is_reported(prior, desk);
        let m = choose|m: int|
            {
                &&& 4 <= m < prior.len()
                &&& #[trigger] prior[m] matches DiscoverReply::Properties(Some(properties))
                &&& is_desk(properties)
                &&& properties.services@.contains(UUID_ADV_SVC)
                &&& desk == described(properties)
                &&& desk.device_id == properties.device_id
                &&& desk.name == properties.name
                &&& desk.address == properties.address
                &&& forall|i: int| 4 <= i < m ==> !shows_desk(#[trigger] prior[i])
            };
        assert(replies[m] == prior[m]);
    } else {
        lemma_discover_stage(prior);
        assert(replies[n - 1] == replies.last());
    }
}

/// A search that finds no desk has looked at every device, and none of them
/// advertises the service of a desk.
pub proof fn law_no_desk_means_none_in_reach(replies: Seq<DiscoverReply>)
    requires
        discover_after(replies).1 == DiscoverRequest::Finish(Ok(None)),
    ensures
        replies.len() >= 4,
        replies[3] matches DiscoverReply::Peripherals(count) && {
            &&& replies.len() >= 4 + count
            &&& forall|i: int| 4 <= i < 4 + count ==> !shows_desk(#[trigger] replies[i])
        },
    decreases replies.len(),
{
    let n = replies.len() as int;
    assert(n > 0);
    let prior = replies.drop_last();
    assert forall|i: int| 0 <= i < prior.len() implies #[trigger] replies[i] == prior[i] by {}
    if discover_after(prior).0 is Finished {
        law_no_desk_means_none_in_reach(prior);
    } else {
        lemma_discover_stage(prior);
        assert(replies[n - 1] == replies.last());
    }
}

/// Whether a search has come to look at `count` devices: there is an adapter, it has
/// begun to scan, and it has counted the devices.
pub open spec fn begun(replies: Seq<DiscoverReply>, count: usize) -> bool {
    &&& replies.len() >= 4
    &&& replies[0] matches DiscoverReply::Adapters(adapters) && adapters > 0
    &&& replies[1] is Done
    &&& replies[3] == DiscoverReply::Peripherals(count)
}

/// Whether the first `n` devices have answered, and none of them shows a desk.
pub open spec fn none_among(replies: Seq<DiscoverReply>, n: int) -> bool {
    forall|i: int| 4 <= i < 4 + n ==> #[trigger] replies[i] is Properties && !shows_desk(replies[i])
}

/// A search that has ended stays as it is.
proof fn lemma_search_stays_ended(replies: Seq<DiscoverReply>, n: int)
    requires
        0 <= n <= replies.len(),
        discover_after(replies.take(n)).0 is Finished,
    ensures
        discover_after(replies) == discover_after(replies.take(n)),
    decreases replies.len(),
{
    if n < replies.len() {
        assert(replies.drop_last().take(n) =~= replies.take(n));
        lemma_search_stays_ended(replies.drop_last(), n);
    } else {
        assert(replies.take(n) =~= replies);
    }
}

/// One reply more is one step further.
proof fn lemma_next_reply(replies: Seq<DiscoverReply>, n: int)
    requires
        0 <= n < replies.len(),
        !(discover_after(replies.take(n)).0 is Finished),
    ensures
        discover_after(replies.take(n + 1)) == discover_following(
            discover_after(replies.take(n)).0,
            replies[n],
        ),
{
    assert(replies.take(n + 1).drop_last() =~= replies.take(n));
    assert(replies.take(n + 1).last() == replies[n]);
}

/// While no desk shows up, a search looks at one device after the other.
proof fn lemma_search_goes_on(replies: Seq<DiscoverReply>, count: usize, n: int)
    requires
        begun(replies, count),
        0 <= n <= count,
        4 + n <= replies.len(),
        none_among(replies, n),
    ensures
        discover_after(replies.take(4 + n)) == inspect(n, count),
    decreases n,
{
    if n == 0 {
        assert(discover_after(replies.take(0)) == discover_opening());
        lemma_next_reply(replies, 0);
        lemma_next_reply(replies, 1);
        lemma_next_reply(replies, 2);
        lemma_next_reply(replies, 3);
    } else {
        lemma_search_goes_on(replies, count, n - 1);
        lemma_next_reply(replies, 4 + n - 1);
        assert(replies[4 + n - 1] is Properties && !shows_desk(replies[4 + n - 1]));
    }
}

/// What comes of a search in which the first `n` devices show no desk.
proof fn lemma_search_result(replies: Seq<DiscoverReply>, count: usize, n: int)
    requires
        begun(replies, count),
        replies.len() >= 4 + count,
        forall|i: int| 4 <= i < 4 + count ==> #[trigger] replies[i] is Properties,
        0 <= n <= count,
        none_among(replies, n),
    ensures
        match discover_after(replies).1 {
            DiscoverRequest::Finish(Ok(found)) => found is Some <==> exists|i: int|
                4 <= i < 4 + count && shows_desk(#[trigger] replies[i]),
            _ => false,
        },
    decreases count - n,
{
    lemma_search_goes_on(replies, count, n);
    if n == count {
        lemma_search_stays_ended(replies, 4 + n);
        assert forall|i: int| 4 <= i < 4 + count implies !shows_desk(#[trigger] replies[i]) by {}
    } else if shows_desk(replies[4 + n]) {
        lemma_next_reply(replies, 4 + n);
        lemma_search_stays_ended(replies, 4 + n + 1);
    } else {
        assert(replies[4 + n] is Properties);
        lemma_search_result(replies, count, n + 1);
    }
}

/// Where every device answers, a search succeeds, and it finds a desk exactly where
/// one of the devices advertises the service of a desk.
pub proof fn law_desk_in_reach_is_found(replies: Seq<DiscoverReply>, count: usize)
    requires
        begun(replies, count),
        replies.len() >= 4 + count,
        forall|i: int| 4 <= i < 4 + count ==> #[trigger] replies[i] is Properties,
    ensures
        match discover_after(replies).1 {
            DiscoverRequest::Finish(Ok(found)) => found is Some <==> exists|i: int|
                4 <= i < 4 + count && shows_desk(#[trigger] replies[i]),
            _ => false,
        },
{
    lemma_search_result(replies, count, 0);
}

/// A search ends with an error from outside at the first device that cannot be looked
/// at, unless a desk has shown up before.
pub proof fn law_failed_look_ends_the_search(replies: Seq<DiscoverReply>, count: usize, n: int)
    requires
        begun(replies, count),
        0 <= n < count,
        4 + n < replies.len(),
        none_among(replies, n),
        !(replies[4 + n] is Properties),
    ensures
        discover_after(replies) == (
            DiscoverStage::Finished,
            DiscoverRequest::Finish(Err(DeskError::Outside)),
        ),
{
    lemma_search_goes_on(replies, count, n);
    lemma_next_reply(replies, 4 + n);
    lemma_search_stays_ended(replies, 4 + n + 1);
}

/// The request matches the stage.
proof fn lemma_discover_request(replies: Seq<DiscoverReply>)
    ensures
        match discover_after(replies).0 {
            DiscoverStage::Listing => discover_after(replies).1 is ListAdapters,
            DiscoverStage::Scanning => discover_after(replies).1 is StartScan,
            DiscoverStage::Settling => discover_after(replies).1 is Wait,
            DiscoverStage::Enumerating => discover_after(replies).1 is ListPeripherals,
            DiscoverStage::Inspecting { .. } => discover_after(replies).1 is Inspect,
            DiscoverStage::Finished => discover_after(replies).1 is Finish,
        },
    decreases replies.len(),
{
    if replies.len() > 0 {
        lemma_discover_request(replies.drop_last());
    }
}

/// Before the devices are looked at: the adapters are counted, the first one scans for
/// devices with the service of a desk, three seconds pass, and the devices are counted.
/// Without an adapter there is nothing to do; what else goes wrong is an error from
/// outside.
pub proof fn law_search_is_prepared(replies: Seq<DiscoverReply>, reply: DiscoverReply)
    ensures
        discover_after(seq![]).1 == DiscoverRequest::ListAdapters,
        ({
            let asked = discover_after(replies).1;
            let next = discover_after(replies.push(reply)).1;
            &&& asked is ListAdapters ==> next == match reply {
                DiscoverReply::Adapters(count) => if count == 0 {
                    DiscoverRequest::Finish(Err(DeskError::NoAdapter))
                } else {
                    DiscoverRequest::StartScan { adapter: 0, service: UUID_ADV_SVC }
                },
                _ => DiscoverRequest::Finish(Err(DeskError::Outside)),
            }
            &&& asked is StartScan ==> next == if reply is Done {
                DiscoverRequest::Wait(3000)
            } else {
                DiscoverRequest::Finish(Err(DeskError::Outside))
            }
            &&& asked is Wait ==> next == DiscoverRequest::ListPeripherals
            &&& asked is ListPeripherals ==> next == match reply {
                DiscoverReply::Peripherals(count) => if count == 0 {
                    DiscoverRequest::Finish(Ok(None))
                } else {
                    DiscoverRequest::Inspect(0)
                },
                _ => DiscoverRequest::Finish(Err(DeskError::Outside)),
            }
        }),
{
    lemma_discover_request(replies);
    assert(discover_after(seq![]) == discover_opening());
    assert(replies.push(reply).drop_last() =~= replies);
}

/// The devices are looked at one after the other. One that advertises the service of a
/// desk is reported, with its identifier, its name and its address; after any other one,
/// and after one that says nothing, comes the next; after the last one there is no desk.
/// A device that cannot be looked at is an error from outside.
pub proof fn law_devices_are_looked_at_in_turn(
    replies: Seq<DiscoverReply>,
    reply: DiscoverReply,
    at: usize,
)
    requires
        discover_after(replies).1 == DiscoverRequest::Inspect(at),
    ensures
        replies.len() == 4 + at,
        ({
            let next = discover_after(replies.push(reply)).1;
            &&& replies[3] matches DiscoverReply::Peripherals(count)
            &&& at < count
            &&& match reply {
                DiscoverReply::Properties(known) => if known matches Some(properties)
                    && properties.services@.contains(UUID_ADV_SVC) {
                    &&& next matches DiscoverRequest::Finish(Ok(Some(desk)))
                    &&& desk.device_id == known->Some_0.device_id
                    &&& desk.name == known->Some_0.name
                    &&& desk.address == known->Some_0.address
                } else {
                    next == if at + 1 < count {
                        DiscoverRequest::Inspect((at + 1) as usize)
                    } else {
                        DiscoverRequest::Finish(Ok(None))
                    }
                },
                _ => next == DiscoverRequest::Finish(Err(DeskError::Outside)),
            }
        }),
{
    lemma_discover_request(replies);
    lemma_discover_stage(replies);
    assert(replies.push(reply).drop_last() =~= replies);
}

/// A search that has ended is told nothing more.
pub proof fn law_ended_search_stays_ended(replies: Seq<DiscoverReply>, reply: DiscoverReply)
    requires
        discover_after(replies).1 is Finish,
    ensures
        discover_after(replies.push(reply)) == discover_after(replies),
{
    lemma_discover_request(replies);
    assert(replies.push(reply).drop_last() =~= replies);
}

} // verus!
