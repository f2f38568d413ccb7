//! Listening for the announcements of services in the local network.
//!
//! The sweep is a state machine: each step takes what came of the last one and says what to do
//! next. The caller reads the timer, receives and rests.
use crate::discovery::{
    announced, announced_name, is_merged, listed, ArpView, FindingView, HostView, MdnsFinding,
};
use crate::net::IpAddr;
use crate::text::{trim_end_char, views};
use crate::time::TimeSpan;
use vstd::prelude::*;

verus! {

/// Milliseconds that are waited for one service before it is the next one's turn.
pub const LONGEST_WAIT: u64 = 200;

/// Milliseconds of rest after a round in which no service was heard of.
pub const ROUND_PAUSE: u64 = 100;

/// The services whose announcements are listened for.
pub open spec fn service_types() -> Seq<Seq<char>> {
    seq!["_ssh._tcp.local."@, "_workstation._tcp.local."@]
}

/// The services whose announcements are listened for.
pub fn mdns_service_types() -> (out: Vec<String>)
    ensures
        views(out@) == service_types(),
{
    let mut out: Vec<String> = Vec::new();
    out.push("_ssh._tcp.local.".to_owned());
    out.push("_workstation._tcp.local.".to_owned());
    assert(views(out@) =~= service_types());
    out
}

/// What came of a step of the sweep.
#[derive(Debug, PartialEq, Eq)]
pub enum MdnsEvent<T = String, L = Vec<IpAddr>> {
    /// So many nanoseconds have passed since the scan began.
    Timer(u64),
    /// A host announced its name and addresses.
    Announced { hostname: T, addresses: L },
    /// Something else was heard of the service.
    Other,
    /// Nothing was heard of the service.
    Silence,
    /// The rest is over.
    Rested,
}

/// The view of a [`MdnsEvent`].
pub type MdnsEventView = MdnsEvent<Seq<char>, Seq<IpAddr>>;

impl View for MdnsEvent {
    type V = MdnsEventView;

    open spec fn view(&self) -> MdnsEventView {
        match self {
            MdnsEvent::Timer(time) => MdnsEvent::Timer(*time),
            MdnsEvent::Announced { hostname, addresses } => MdnsEvent::Announced {
                hostname: hostname@,
                addresses: addresses@,
            },
            MdnsEvent::Other => MdnsEvent::Other,
            MdnsEvent::Silence => MdnsEvent::Silence,
            MdnsEvent::Rested => MdnsEvent::Rested,
        }
    }
}

/// What is to be done next. The view has spans in nanoseconds.
#[derive(Debug, PartialEq, Eq)]
pub enum MdnsStep<S = TimeSpan> {
    /// Read the timer.
    ReadTimer,
    /// Wait for what is heard of a service.
    Receive { service: usize, wait: S },
    /// Rest.
    Rest(S),
    /// The sweep is over.
    Done,
}

/// The view of a [`MdnsStep`].
pub type MdnsStepView = MdnsStep<int>;

impl View for MdnsStep {
    type V = MdnsStepView;

    open spec fn view(&self) -> MdnsStepView {
        match self {
            MdnsStep::ReadTimer => MdnsStep::ReadTimer,
            MdnsStep::Receive { service, wait } => MdnsStep::Receive {
                service: *service,
                wait: wait.spec_nanos(),
            },
            MdnsStep::Rest(pause) => MdnsStep::Rest(pause.spec_nanos()),
            MdnsStep::Done => MdnsStep::Done,
        }
    }
}

/// A sweep that listens for announcements.
#[derive(Debug, PartialEq, Eq)]
pub struct MdnsSweep<L = Vec<MdnsFinding>> {
    /// How long the scan takes at most.
    pub budget: TimeSpan,
    /// How many services are listened for.
    pub services: usize,
    /// Whose turn it is in this round.
    pub at: usize,
    /// Whether anything was heard in this round.
    pub heard: bool,
    /// What was announced so far.
    pub findings: L,
}

/// The view of a [`MdnsSweep`].
pub type MdnsSweepView = MdnsSweep<Seq<FindingView>>;

impl View for MdnsSweep {
    type V = MdnsSweepView;

    open spec fn view(&self) -> MdnsSweepView {
        MdnsSweep {
            budget: self.budget,
            services: self.services,
            at: self.at,
            heard: self.heard,
            findings: views(self.findings@),
        }
    }
}

/// What an announcement says of the addresses in it.
pub open spec fn findings_in(hostname: Seq<char>, addresses: Seq<IpAddr>) -> Seq<FindingView> {
    Seq::new(
        addresses.len(),
        |i: int| MdnsFinding { ip: addresses[i], hostname: announced_name(hostname) },
    )
}

/// The shorter of two spans, the second in milliseconds.
pub open spec fn at_most(left: int, millis: u64) -> int {
    if left < millis * 1_000_000 {
        left
    } else {
        millis * 1_000_000
    }
}

/// A sweep that has not begun to listen: it asks for the time first.
pub open spec fn mdns_begin(budget: TimeSpan, services: usize) -> (MdnsSweepView, MdnsStepView) {
    (
        MdnsSweep { budget, services, at: 0, heard: false, findings: seq![] },
        MdnsStep::ReadTimer,
    )
}

/// One step of a sweep. Before each wait and each rest the time is read anew, and neither reaches
/// past the budget. The services have their turns one after the other; a round in which nothing was
/// heard is followed by a rest.
pub open spec fn mdns_step(m: MdnsSweepView, event: MdnsEventView) -> (
    MdnsSweepView,
    MdnsStepView,
) {
    match event {
        MdnsEvent::Timer(time) => {
            let left = m.budget.spec_nanos() - time;
            let round = MdnsSweep { at: 0, heard: false, ..m };
            if left <= 0 {
                (m, MdnsStep::Done)
            } else if m.at < m.services {
                (m, MdnsStep::Receive { service: m.at, wait: at_most(left, LONGEST_WAIT) })
            } else if m.heard && m.services > 0 {
                (round, MdnsStep::Receive { service: 0, wait: at_most(left, LONGEST_WAIT) })
            } else {
                (round, MdnsStep::Rest(at_most(left, ROUND_PAUSE)))
            }
        },
        MdnsEvent::Announced { hostname, addresses } => (
            MdnsSweep {
                at: (m.at + 1) as usize,
                heard: true,
                findings: m.findings + findings_in(hostname, addresses),
                ..m
            },
            MdnsStep::ReadTimer,
        ),
        MdnsEvent::Other => (
            MdnsSweep { at: (m.at + 1) as usize, heard: true, ..m },
            MdnsStep::ReadTimer,
        ),
        MdnsEvent::Silence => (MdnsSweep { at: (m.at + 1) as usize, ..m }, MdnsStep::ReadTimer),
        MdnsEvent::Rested => (m, MdnsStep::ReadTimer),
    }
}

/// Whether an event can come where a sweep stands: of a service only while it is one's turn.
pub open spec fn can_come(m: MdnsSweepView, event: MdnsEventView) -> bool {
    event is Announced || event is Other || event is Silence ==> m.at < m.services
}

fn shorter(left: u128, millis: u64) -> (r: TimeSpan)
    ensures
        r.spec_nanos() == at_most(left as int, millis),
{
    let limit = TimeSpan::from_millis(millis);
    if left < limit.nanos() {
        match TimeSpan::from_nanos(left) {
            Some(span) => span,
            None => limit,
        }
    } else {
        limit
    }
}

impl MdnsSweep {
    /// Begins to listen for some services, for as long as a scan takes at most.
    pub fn begin(budget: TimeSpan, services: usize) -> (r: (MdnsSweep, MdnsStep))
        ensures
            (r.0@, r.1@) == mdns_begin(budget, services),
    {
        let m = MdnsSweep { budget, services, at: 0, heard: false, findings: Vec::new() };
        assert(m@.findings =~= Seq::empty());
        (m, MdnsStep::ReadTimer)
    }

    /// Takes in what came of the last step.
    pub fn step(&mut self, event: MdnsEvent) -> (r: MdnsStep)
        requires
            can_come(old(self)@, event@),
        ensures
            (final(self)@, r@) == mdns_step(old(self)@, event@),
    {
        match event {
            MdnsEvent::Timer(time) => {
                let budget: u128 = self.budget.nanos();
                let now: u128 = time as u128;
                if now >= budget {
                    return MdnsStep::Done;
                }
                let left: u128 = budget - now;
                if self.at < self.services {
                    return MdnsStep::Receive { service: self.at, wait: shorter(left, LONGEST_WAIT) };
                }
                let again = self.heard && self.services > 0;
                self.at = 0;
                self.heard = false;
                if again {
                    MdnsStep::Receive { service: 0, wait: shorter(left, LONGEST_WAIT) }
                } else {
                    MdnsStep::Rest(shorter(left, ROUND_PAUSE))
                }
            },
            MdnsEvent::Announced { hostname, addresses } => {
                let mut more = announced(hostname.as_str(), &addresses);
                proof {
                    assert(views(self.findings@ + more@) =~= views(self.findings@) + views(more@));
                }
                self.findings.append(&mut more);
                self.at = self.at + 1;
                self.heard = true;
                MdnsStep::ReadTimer
            },
            MdnsEvent::Other => {
                self.at = self.at + 1;
                self.heard = true;
                MdnsStep::ReadTimer
            },
            MdnsEvent::Silence => {
                self.at = self.at + 1;
                MdnsStep::ReadTimer
            },
            MdnsEvent::Rested => MdnsStep::ReadTimer,
        }
    }
}

// ---------------------------------------------------------------------------------------------
// Whole sweeps
// ---------------------------------------------------------------------------------------------

/// Where a sweep stands after some events.
pub open spec fn mdns_after(
    budget: TimeSpan,
    services: usize,
    events: Seq<MdnsEventView>,
) -> (MdnsSweepView, MdnsStepView)
    decreases events.len(),
{
    if events.len() == 0 {
        mdns_begin(budget, services)
    } else {
        mdns_step(mdns_after(budget, services, events.drop_last()).0, events.last())
    }
}

/// Whether each event can come where the sweep stands.
pub open spec fn all_can_come(
    budget: TimeSpan,
    services: usize,
    events: Seq<MdnsEventView>,
) -> bool
    decreases events.len(),
{
    events.len() == 0 || (all_can_come(budget, services, events.drop_last()) && can_come(
        mdns_after(budget, services, events.drop_last()).0,
        events.last(),
    ))
}

proof fn lemma_sweep_keeps(budget: TimeSpan, services: usize, events: Seq<MdnsEventView>)
    requires
        all_can_come(budget, services, events),
    ensures
        ({
            let m = mdns_after(budget, services, events).0;
            m.budget == budget && m.services == services && m.at <= m.services
        }),
    decreases events.len(),
{
    if events.len() > 0 {
        lemma_sweep_keeps(budget, services, events.drop_last());
    }
}

/// What was announced stays found: the findings after some events are the first of the findings
/// after more.
pub proof fn announcements_stay_found(
    budget: TimeSpan,
    services: usize,
    events: Seq<MdnsEventView>,
    count: int,
)
    requires
        0 <= count <= events.len(),
    ensures
        mdns_after(budget, services, events.take(count)).0.findings.is_prefix_of(
            mdns_after(budget, services, events).0.findings,
        ),
    decreases events.len(),
{
    if count == events.len() {
        assert(events.take(count) =~= events);
    } else {
        announcements_stay_found(budget, services, events.drop_last(), count);
        assert(events.drop_last().take(count) =~= events.take(count));
    }
}

/// A sweep ends in time. Whenever the time is read, no wait and no rest that is then asked for
/// reaches past the budget, each is longer than nothing and no longer than its limit, and only a
/// service that is listened for is waited for. From the moment on at which the budget is used up,
/// the sweep is over, and not before.
pub proof fn sweeps_end_within_the_budget(
    budget: TimeSpan,
    services: usize,
    events: Seq<MdnsEventView>,
)
    requires
        all_can_come(budget, services, events),
        events.len() > 0,
        events.last() is Timer,
    ensures
        ({
            let time = events.last()->Timer_0;
            let step = mdns_after(budget, services, events).1;
            &&& step is Done <==> time >= budget.spec_nanos()
            &&& step matches MdnsStep::Receive { service, wait } ==> service < services && 0 < wait
                <= LONGEST_WAIT * 1_000_000 && time + wait <= budget.spec_nanos()
            &&& step matches MdnsStep::Rest(pause) ==> 0 < pause <= ROUND_PAUSE * 1_000_000 && time
                + pause <= budget.spec_nanos()
        }),
{
    lemma_sweep_keeps(budget, services, events.drop_last());
}

/// The time is read before each wait and each rest: whatever else comes is answered with a look at
/// the timer.
pub proof fn time_is_read_before_each_wait(
    budget: TimeSpan,
    services: usize,
    events: Seq<MdnsEventView>,
)
    requires
        events.len() > 0 ==> !(events.last() is Timer),
    ensures
        mdns_after(budget, services, events).1 == MdnsStepView::ReadTimer,
{
}

/// Every address that was announced in the course of a sweep is among the hosts of the scan.
pub proof fn announced_hosts_are_listed(
    budget: TimeSpan,
    services: usize,
    events: Seq<MdnsEventView>,
    at: int,
    hosts: Seq<HostView>,
    pinged: Seq<IpAddr>,
    arp: Seq<ArpView>,
    known: Seq<IpAddr>,
)
    requires
        0 <= at < events.len(),
        is_merged(hosts, mdns_after(budget, services, events).0.findings, pinged, arp, known),
    ensures
        events[at] matches MdnsEvent::Announced { addresses, .. } ==> forall|i: int|
            0 <= i < addresses.len() ==> #[trigger] listed(hosts, addresses[i]),
{
    if let MdnsEvent::Announced { hostname, addresses } = events[at] {
        let before = events.take(at);
        let upto = events.take(at + 1);
        let all = mdns_after(budget, services, events).0.findings;
        assert(upto.drop_last() =~= before);
        assert(upto.last() == events[at]);
        let old_findings = mdns_after(budget, services, before).0.findings;
        announcements_stay_found(budget, services, events, at + 1);
        assert forall|i: int| 0 <= i < addresses.len() implies #[trigger] listed(
            hosts,
            addresses[i],
        ) by {
            let k = old_findings.len() + i;
            let some = mdns_after(budget, services, upto).0.findings;
            assert(some[k] == findings_in(hostname, addresses)[i]);
            assert(all[k] == some[k]);
            assert(all[k].ip == addresses[i]);
        }
    }
}

/// What is announced is found with its name: an announcement adds one finding for each of its
/// addresses, in their order, behind what was found before. Each has the announced name without
/// dots at its end, and no name where an empty one was announced. Nothing else adds a finding.
pub proof fn announcements_are_found_with_their_name(
    m: &mut MdnsSweep,
    event: MdnsEvent,
    r: MdnsStep,
)
    requires
        call_ensures(MdnsSweep::step, (m, event), r),
        can_come(m@, event@),
    ensures
        ({
            let before = views(old(m).findings@);
            let after = views(final(m).findings@);
            &&& !(event is Announced) ==> after == before
            &&& event matches MdnsEvent::Announced { hostname, addresses } ==> {
                &&& after.len() == before.len() + addresses@.len()
                &&& after.take(before.len() as int) == before
                &&& forall|i: int|
                    0 <= i < addresses@.len() ==> {
                        let finding = #[trigger] after[before.len() + i];
                        &&& finding.ip == addresses@[i]
                        &&& hostname@.len() == 0 ==> finding.hostname is None
                        &&& hostname@.len() > 0 ==> finding.hostname == Some(
                            trim_end_char(hostname@, '.'),
                        )
                    }
            }
        }),
{
    let before = views(m.findings@);
    if let MdnsEvent::Announced { hostname, addresses } = event {
        let more = findings_in(hostname@, addresses@);
        assert((before + more).take(before.len() as int) =~= before);
    }
}

/// The services have their turns one after the other, from the first. Each is waited for as long as
/// its limit or what is left of the budget, whichever is shorter. A service that has been heard of,
/// or not, hands on to the next; behind the last it is the first one's turn again where anything
/// was heard in the round, and else there is a rest first.
pub proof fn services_take_turns(m: &mut MdnsSweep, event: MdnsEvent, r: MdnsStep)
    requires
        call_ensures(MdnsSweep::step, (m, event), r),
        can_come(m@, event@),
    ensures
        event matches MdnsEvent::Timer(time) ==> {
            let left = old(m).budget.spec_nanos() - time;
            let wait: int = if left < 200_000_000 {
                left
            } else {
                200_000_000
            };
            let pause: int = if left < 100_000_000 {
                left
            } else {
                100_000_000
            };
            &&& left <= 0 ==> r is Done
            &&& left > 0 && old(m).at < old(m).services ==> r@ == (MdnsStepView::Receive {
                service: old(m).at,
                wait,
            }) && final(m).at == old(m).at && final(m).heard == old(m).heard
            &&& left > 0 && old(m).at >= old(m).services && old(m).services > 0 && old(m).heard
                ==> r@ == (MdnsStepView::Receive { service: 0, wait }) && final(m).at == 0
                && !final(m).heard
            &&& left > 0 && old(m).at >= old(m).services && !(old(m).services > 0 && old(m).heard)
                ==> r@ == MdnsStepView::Rest(pause) && final(m).at == 0 && !final(m).heard
        },
        event is Announced || event is Other || event is Silence ==> final(m).at == old(m).at + 1,
        event is Announced || event is Other ==> final(m).heard,
        event is Silence || event is Rested ==> final(m).heard == old(m).heard,
        !(event is Timer) ==> r is ReadTimer,
{
}

} // verus!
