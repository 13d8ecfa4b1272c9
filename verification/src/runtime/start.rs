use vstd::prelude::*;

use crate::clock::Instant;
use crate::ids::{AddressFamily, InfoHash, LookupId};
use crate::limits::DHT_LOOKUP_BOOTSTRAP_WAIT;
use crate::planner::crawl::LookupState;
use crate::planner::drain::taken_parked;
use crate::planner::metrics::DemandSliceMetrics;
use crate::planner::model::{DemandPlannerModel, PlannerView};
use crate::slice::DemandSliceClass;

verus! {

/// The address family that a lookup starts with: IPv4 where the runtime is bound to it.
pub open spec fn primary_of(ipv4_bound: bool, ipv6_bound: bool) -> Option<AddressFamily> {
    if ipv4_bound {
        Some(AddressFamily::Ipv4)
    } else if ipv6_bound {
        Some(AddressFamily::Ipv6)
    } else {
        None
    }
}

/// The address family that a lookup starts with.
pub fn primary_family(ipv4_bound: bool, ipv6_bound: bool) -> (family: Option<AddressFamily>)
    ensures
        family == primary_of(ipv4_bound, ipv6_bound),
{
    if ipv4_bound {
        Some(AddressFamily::Ipv4)
    } else if ipv6_bound {
        Some(AddressFamily::Ipv6)
    } else {
        None
    }
}

/// A lookup that has started: its parts, and whether it takes more of them. One without parts takes
/// none.
#[derive(Debug)]
pub struct StartedLookup {
    pub lookup_ids: Vec<LookupId>,
    pub accepting_families: bool,
}

/// How far the start of a lookup has come.
#[derive(Clone, Copy, Debug, PartialEq, Eq, Structural)]
pub enum StartPhase {
    Routing(AddressFamily),
    AttachingPrimary(AddressFamily),
    AttachingSecondary,
    Over,
}

/// The start of a lookup.
#[derive(Debug)]
pub struct LookupStart {
    pub ipv6_bound: bool,
    pub phase: StartPhase,
    pub lookup_ids: Vec<LookupId>,
}

/// What the start of a lookup waits for.
#[derive(Debug, PartialEq, Eq)]
pub enum StartAction {
    /// Make sure that there are routes in an address family.
    EnsureRoutes(AddressFamily),
    /// End the runtime's own lookups and run this one over an address family.
    CancelMaintenanceAndAttach(AddressFamily),
    /// Run the lookup over an address family.
    Attach(AddressFamily),
    /// The lookup has started.
    Started,
    /// The lookup has started, and is to run over IPv6 too after a while.
    StartedWithHedge,
    /// The lookup has not started.
    Failed(String),
}

/// What the start of a lookup waited for.
#[derive(Debug)]
pub enum StartEvent {
    RoutesReady,
    /// The lookup runs over the address family, or the runtime has ended it already.
    Attached(Option<LookupId>),
    Failed(String),
}

/// The mathematical content of the start of a lookup.
#[verifier::ext_equal]
pub struct StartView {
    pub ipv6_bound: bool,
    pub phase: StartPhase,
    pub lookup_ids: Seq<LookupId>,
}

impl View for LookupStart {
    type V = StartView;

    open spec fn view(&self) -> StartView {
        StartView {
            ipv6_bound: self.ipv6_bound,
            phase: self.phase,
            lookup_ids: self.lookup_ids@,
        }
    }
}

impl StartView {
    /// The beginning of the start of a lookup, and what it waits for.
    pub open spec fn begun(
        runtime_available: bool,
        ipv4_bound: bool,
        ipv6_bound: bool,
    ) -> (Self, StartAction) {
        match primary_of(ipv4_bound, ipv6_bound) {
            Some(family) if runtime_available => (
                StartView { ipv6_bound, phase: StartPhase::Routing(family), lookup_ids: seq![] },
                StartAction::EnsureRoutes(family),
            ),
            _ => (
                StartView { ipv6_bound, phase: StartPhase::Over, lookup_ids: seq![] },
                StartAction::Started,
            ),
        }
    }

    /// The start of a lookup after an event, and what it waits for next.
    pub open spec fn after(self, event: StartEvent) -> (Self, StartAction) {
        let over = StartView { phase: StartPhase::Over, ..self };
        match event {
            StartEvent::Failed(error) => (over, StartAction::Failed(error)),
            StartEvent::RoutesReady => match self.phase {
                StartPhase::Routing(family) => (
                    StartView { phase: StartPhase::AttachingPrimary(family), ..self },
                    StartAction::CancelMaintenanceAndAttach(family),
                ),
                _ => (over, StartAction::Started),
            },
            StartEvent::Attached(attached) => {
                let lookup_ids = match attached {
                    Some(lookup_id) => self.lookup_ids.push(lookup_id),
                    None => self.lookup_ids,
                };
                if self.phase != StartPhase::AttachingPrimary(AddressFamily::Ipv4)
                    || !self.ipv6_bound {
                    (StartView { lookup_ids, ..over }, StartAction::Started)
                } else if lookup_ids.len() > 0 {
                    (StartView { lookup_ids, ..over }, StartAction::StartedWithHedge)
                } else {
                    (
                        StartView { phase: StartPhase::AttachingSecondary, lookup_ids, ..self },
                        StartAction::Attach(AddressFamily::Ipv6),
                    )
                }
            },
        }
    }
}

impl LookupStart {
    /// Whether the lookup may run over IPv6 too.
    pub open spec fn may_hedge(self) -> bool {
        self.phase == StartPhase::AttachingPrimary(AddressFamily::Ipv4) && self.ipv6_bound
    }

    /// Begins the start of a lookup. Without a runtime and without a bound address family it is
    /// over at once.
    pub fn begin(runtime_available: bool, ipv4_bound: bool, ipv6_bound: bool) -> (begun: (
        Self,
        StartAction,
    ))
        ensures
            (begun.0@, begun.1) == StartView::begun(runtime_available, ipv4_bound, ipv6_bound),
            begun.0.lookup_ids@ == Seq::<LookupId>::empty(),
            begun.0.ipv6_bound == ipv6_bound,
            match primary_of(ipv4_bound, ipv6_bound) {
                Some(family) if runtime_available => begun.0.phase == StartPhase::Routing(family)
                    && begun.1 == StartAction::EnsureRoutes(family),
                _ => begun.0.phase == StartPhase::Over && begun.1 == StartAction::Started,
            },
    {
        if runtime_available {
            if let Some(family) = primary_family(ipv4_bound, ipv6_bound) {
                let start = LookupStart {
                    ipv6_bound,
                    phase: StartPhase::Routing(family),
                    lookup_ids: Vec::new(),
                };
                assert(start@.lookup_ids =~= seq![]);
                return (start, StartAction::EnsureRoutes(family));
            }
        }
        let start = LookupStart { ipv6_bound, phase: StartPhase::Over, lookup_ids: Vec::new() };
        assert(start@.lookup_ids =~= seq![]);
        (start, StartAction::Started)
    }

    /// Takes in what the start waited for. A failure ends it. Once there are routes, the lookup is
    /// run over the first family. Where that is IPv4 and IPv6 is bound too, IPv6 follows: after a
    /// while if the first family has started, at once if it has not.
    pub fn advance(&mut self, event: StartEvent) -> (action: StartAction)
        ensures
            (final(self)@, action) == old(self)@.after(event),
            final(self).ipv6_bound == old(self).ipv6_bound,
            match event {
                StartEvent::Failed(error) => {
                    &&& action == StartAction::Failed(error)
                    &&& final(self).phase == StartPhase::Over
                    &&& final(self).lookup_ids == old(self).lookup_ids
                },
                StartEvent::RoutesReady => {
                    &&& final(self).lookup_ids == old(self).lookup_ids
                    &&& match old(self).phase {
                        StartPhase::Routing(family) => final(self).phase
                            == StartPhase::AttachingPrimary(family) && action
                            == StartAction::CancelMaintenanceAndAttach(family),
                        _ => final(self).phase == StartPhase::Over && action
                            == StartAction::Started,
                    }
                },
                StartEvent::Attached(attached) => {
                    &&& final(self).lookup_ids@ == match attached {
                        Some(lookup_id) => old(self).lookup_ids@.push(lookup_id),
                        None => old(self).lookup_ids@,
                    }
                    &&& if !old(self).may_hedge() {
                        final(self).phase == StartPhase::Over && action == StartAction::Started
                    } else if final(self).lookup_ids@.len() > 0 {
                        final(self).phase == StartPhase::Over && action
                            == StartAction::StartedWithHedge
                    } else {
                        final(self).phase == StartPhase::AttachingSecondary && action
                            == StartAction::Attach(AddressFamily::Ipv6)
                    }
                },
            },
    {
        match event {
            StartEvent::Failed(error) => {
                self.phase = StartPhase::Over;
                StartAction::Failed(error)
            },
            StartEvent::RoutesReady => {
                match self.phase {
                    StartPhase::Routing(family) => {
                        self.phase = StartPhase::AttachingPrimary(family);
                        StartAction::CancelMaintenanceAndAttach(family)
                    },
                    _ => {
                        self.phase = StartPhase::Over;
                        StartAction::Started
                    },
                }
            },
            StartEvent::Attached(attached) => {
                if let Some(lookup_id) = attached {
                    self.lookup_ids.push(lookup_id);
                }
                let can_try_ipv6_hedge = match self.phase {
                    StartPhase::AttachingPrimary(AddressFamily::Ipv4) => self.ipv6_bound,
                    _ => false,
                };
                if !can_try_ipv6_hedge {
                    self.phase = StartPhase::Over;
                    StartAction::Started
                } else if self.lookup_ids.len() > 0 {
                    self.phase = StartPhase::Over;
                    StartAction::StartedWithHedge
                } else {
                    self.phase = StartPhase::AttachingSecondary;
                    StartAction::Attach(AddressFamily::Ipv6)
                }
            },
        }
    }

    /// The lookup that has started.
    pub fn into_started(self) -> (started: StartedLookup)
        ensures
            started.lookup_ids@ == self.lookup_ids@,
            started.accepting_families == (self.lookup_ids@.len() > 0),
    {
        let accepting_families = self.lookup_ids.len() > 0;
        StartedLookup { lookup_ids: self.lookup_ids, accepting_families }
    }
}

/// Waiting for a first route.
#[derive(Clone, Copy, Debug, PartialEq, Eq, Structural)]
pub enum RouteWaitAction {
    /// Bootstrap the runtime, then go on.
    Bootstrap,
    /// Let the runtime take a step, then go on.
    Step,
    /// Go ahead with the lookup.
    Ready,
}

/// What came of a step of the runtime.
#[derive(Clone, Copy, Debug, PartialEq, Eq, Structural)]
pub enum RouteWaitEvent {
    /// It made progress.
    Progress,
    /// It has nothing to do.
    Idle,
    /// It took too long.
    TimedOut,
}

/// What a lookup does first: without a route the runtime is bootstrapped.
pub fn begin_route_wait(active_routes: usize) -> (action: RouteWaitAction)
    ensures
        action == first_wait(active_routes),
        action == if active_routes > 0 {
            RouteWaitAction::Ready
        } else {
            RouteWaitAction::Bootstrap
        },
{
    if active_routes > 0 {
        RouteWaitAction::Ready
    } else {
        RouteWaitAction::Bootstrap
    }
}

/// Until when a lookup waits for a first route.
pub open spec fn wait_until(now: Instant) -> Instant {
    now.saturating_add(DHT_LOOKUP_BOOTSTRAP_WAIT)
}

/// Whether a lookup is to run over IPv6 too.
pub open spec fn hedges(receiver_gone: bool, accepting_families: bool) -> bool {
    !receiver_gone && accepting_families
}

/// What a lookup does first.
pub open spec fn first_wait(active_routes: usize) -> RouteWaitAction {
    if active_routes > 0 {
        RouteWaitAction::Ready
    } else {
        RouteWaitAction::Bootstrap
    }
}

/// Until when a lookup waits for a first route.
pub fn route_wait_deadline(now: Instant) -> (deadline: Instant)
    ensures
        deadline == wait_until(now),
        deadline == now.saturating_add(DHT_LOOKUP_BOOTSTRAP_WAIT),
{
    now.saturating_add(DHT_LOOKUP_BOOTSTRAP_WAIT)
}

/// Whether a lookup waits on for a first route.
pub open spec fn route_wait(
    now: Instant,
    deadline: Instant,
    active_routes: usize,
    last: RouteWaitEvent,
) -> RouteWaitAction {
    if last != RouteWaitEvent::Idle && now < deadline && active_routes == 0 {
        RouteWaitAction::Step
    } else {
        RouteWaitAction::Ready
    }
}

/// Whether a lookup waits on for a first route: until there is one, the time is up, or the runtime
/// has nothing to do.
pub fn continue_route_wait(
    now: Instant,
    deadline: Instant,
    active_routes: usize,
    last: RouteWaitEvent,
) -> (action: RouteWaitAction)
    ensures
        action == route_wait(now, deadline, active_routes, last),
        action == if last != RouteWaitEvent::Idle && now < deadline && active_routes == 0 {
            RouteWaitAction::Step
        } else {
            RouteWaitAction::Ready
        },
{
    if last != RouteWaitEvent::Idle && now < deadline && active_routes == 0 {
        RouteWaitAction::Step
    } else {
        RouteWaitAction::Ready
    }
}

/// How a lookup is run over an address family.
#[derive(Clone, Copy, Debug, PartialEq, Eq, Structural)]
pub enum AttachDecision {
    /// It is not.
    Skip,
    /// From a parked lookup.
    Resume(LookupState),
    /// From scratch.
    Fresh,
}

/// How a lookup is run over an address family, and what is left of the parked crawls and counted.
pub open spec fn attach_decision(
    planner: PlannerView,
    metrics: DemandSliceMetrics,
    record_metrics: bool,
    runtime_available: bool,
    accepting_families: bool,
    family_bound: bool,
    info_hash: InfoHash,
    family: AddressFamily,
    slice_class: DemandSliceClass,
    now: Instant,
) -> (AttachDecision, PlannerView, DemandSliceMetrics) {
    if !runtime_available || !accepting_families || !family_bound {
        (AttachDecision::Skip, planner, metrics)
    } else {
        let (state, parked_crawls, counted) = taken_parked(
            planner.parked_crawls,
            metrics,
            record_metrics,
            info_hash,
            family,
            slice_class,
            now,
        );
        (
            match state {
                Some(state) => AttachDecision::Resume(state),
                None => AttachDecision::Fresh,
            },
            PlannerView { parked_crawls, ..planner },
            counted,
        )
    }
}

/// Decides how a lookup is run over an address family. It is not where there is no runtime, where
/// it takes no more families, or where the runtime is not bound to the family; then nothing
/// changes. Otherwise a parked lookup is taken out and resumed where there is one.
pub fn decide_attach(
    demand_planner: &mut DemandPlannerModel,
    slice_metrics: &mut DemandSliceMetrics,
    record_metrics: bool,
    runtime_available: bool,
    accepting_families: bool,
    family_bound: bool,
    info_hash: InfoHash,
    family: AddressFamily,
    slice_class: DemandSliceClass,
    now: Instant,
) -> (decision: AttachDecision)
    requires
        old(demand_planner).wf(),
    ensures
        (decision, final(demand_planner)@, *final(slice_metrics)) == attach_decision(
            old(demand_planner)@,
            *old(slice_metrics),
            record_metrics,
            runtime_available,
            accepting_families,
            family_bound,
            info_hash,
            family,
            slice_class,
            now,
        ),
        if !runtime_available || !accepting_families || !family_bound {
            &&& decision == AttachDecision::Skip
            &&& final(demand_planner)@ == old(demand_planner)@
            &&& *final(slice_metrics) == *old(slice_metrics)
        } else {
            let (state, crawls, metrics) = taken_parked(
                old(demand_planner)@.parked_crawls,
                *old(slice_metrics),
                record_metrics,
                info_hash,
                family,
                slice_class,
                now,
            );
            &&& decision == match state {
                Some(state) => AttachDecision::Resume(state),
                None => AttachDecision::Fresh,
            }
            &&& final(demand_planner)@ == (PlannerView {
                parked_crawls: crawls,
                ..old(demand_planner)@
            })
            &&& *final(slice_metrics) == metrics
        },
        final(demand_planner).wf(),
{
    if !runtime_available || !accepting_families || !family_bound {
        return AttachDecision::Skip;
    }
    match demand_planner.take_parked_family_state(
        slice_metrics,
        record_metrics,
        info_hash,
        family,
        slice_class,
        now,
    ) {
        Some(state) => AttachDecision::Resume(state),
        None => AttachDecision::Fresh,
    }
}

/// What is counted once a lookup runs over an address family.
pub open spec fn attached_counts(
    metrics: DemandSliceMetrics,
    record_metrics: bool,
    slice_class: DemandSliceClass,
    resumed: bool,
    lookup_active: bool,
) -> DemandSliceMetrics {
    if lookup_active && record_metrics {
        metrics.with(slice_class, metrics.of(slice_class).with_start(resumed))
    } else {
        metrics
    }
}

/// Notes that a lookup runs over an address family, unless the runtime has ended it already.
pub fn note_attached(
    lookup_ids: &mut Vec<LookupId>,
    slice_metrics: &mut DemandSliceMetrics,
    record_metrics: bool,
    slice_class: DemandSliceClass,
    resumed: bool,
    lookup_id: LookupId,
    lookup_active: bool,
) -> (attached: Option<LookupId>)
    ensures
        attached == if lookup_active {
            Some(lookup_id)
        } else {
            None
        },
        final(lookup_ids)@ == if lookup_active {
            old(lookup_ids)@.push(lookup_id)
        } else {
            old(lookup_ids)@
        },
        *final(slice_metrics) == attached_counts(
            *old(slice_metrics),
            record_metrics,
            slice_class,
            resumed,
            lookup_active,
        ),
        *final(slice_metrics) == if lookup_active && record_metrics {
            old(slice_metrics).with(
                slice_class,
                old(slice_metrics).of(slice_class).with_start(resumed),
            )
        } else {
            *old(slice_metrics)
        },
{
    if !lookup_active {
        return None;
    }
    if record_metrics {
        slice_metrics.record_start(slice_class, resumed);
    }
    lookup_ids.push(lookup_id);
    Some(lookup_id)
}

/// Whether a lookup is to run over IPv6 too, once it has run for a while: somebody still listens,
/// and it still takes families.
pub fn hedge_wanted(receiver_gone: bool, accepting_families: bool) -> (wanted: bool)
    ensures
        wanted == hedges(receiver_gone, accepting_families),
        wanted == (!receiver_gone && accepting_families),
{
    !receiver_gone && accepting_families
}

/// The lookups that are to be ended when nobody waits for their peers any more: all that have not
/// been taken over. None is left behind.
pub fn take_lookup_ids(lookup_ids: &mut Vec<LookupId>) -> (taken: Vec<LookupId>)
    ensures
        taken@ == old(lookup_ids)@,
        final(lookup_ids)@ == Seq::<LookupId>::empty(),
{
    let mut taken: Vec<LookupId> = Vec::new();
    core::mem::swap(&mut taken, lookup_ids);
    taken
}

} // verus!
