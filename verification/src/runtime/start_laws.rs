use vstd::prelude::*;

use crate::clock::{Instant, SECOND};
use crate::ids::{AddressFamily, InfoHash, LookupId};
use crate::planner::metrics::{DemandSliceClassMetrics, DemandSliceMetrics};
use crate::planner::model::PlannerView;
use crate::runtime::start::{
    attach_decision, attached_counts, first_wait, hedges, route_wait, wait_until, AttachDecision,
    RouteWaitAction, RouteWaitEvent, StartAction, StartEvent, StartView,
};
use crate::slice::DemandSliceClass;

verus! {

/// With both address families a lookup starts over IPv4. Where it runs there, IPv6 follows later;
/// where it does not, IPv6 follows at once, and the lookup has started with what came of that.
pub proof fn starts_over_both_families(
    first: LookupId,
    second: Option<LookupId>,
)
    ensures
        ({
            let (begun, routes) = StartView::begun(true, true, true);
            let (routed, attach) = begun.after(StartEvent::RoutesReady);
            let (running, hedge) = routed.after(StartEvent::Attached(Some(first)));
            let (ended, attach6) = routed.after(StartEvent::Attached(None));
            let (late, over) = ended.after(StartEvent::Attached(second));
            &&& routes == StartAction::EnsureRoutes(AddressFamily::Ipv4)
            &&& attach == StartAction::CancelMaintenanceAndAttach(AddressFamily::Ipv4)
            &&& hedge == StartAction::StartedWithHedge
            &&& running.lookup_ids =~= seq![first]
            &&& attach6 == StartAction::Attach(AddressFamily::Ipv6)
            &&& over == StartAction::Started
            &&& second.is_some() ==> late.lookup_ids =~= seq![second.unwrap()]
            &&& second.is_none() ==> late.lookup_ids.len() == 0
        }),
{
}

/// With one address family a lookup starts over that one alone, whether it runs there or not.
pub proof fn starts_over_one_family(ipv4: bool, attached: Option<LookupId>)
    ensures
        ({
            let family = if ipv4 {
                AddressFamily::Ipv4
            } else {
                AddressFamily::Ipv6
            };
            let (begun, routes) = StartView::begun(true, ipv4, !ipv4);
            let (routed, attach) = begun.after(StartEvent::RoutesReady);
            let (started, over) = routed.after(StartEvent::Attached(attached));
            &&& routes == StartAction::EnsureRoutes(family)
            &&& attach == StartAction::CancelMaintenanceAndAttach(family)
            &&& over == StartAction::Started
            &&& attached.is_some() ==> started.lookup_ids =~= seq![attached.unwrap()]
            &&& attached.is_none() ==> started.lookup_ids.len() == 0
        }),
{
}

/// Without a runtime or without an address family a lookup has started at once, with no parts.
pub proof fn starts_without_families_are_over(
    runtime_available: bool,
    ipv4_bound: bool,
    ipv6_bound: bool,
)
    ensures
        ({
            let (begun, action) = StartView::begun(runtime_available, ipv4_bound, ipv6_bound);
            &&& begun.lookup_ids.len() == 0
            &&& !runtime_available || (!ipv4_bound && !ipv6_bound) <==> action
                == StartAction::Started
        }),
{
}

/// A failure ends a start, whenever it comes, and is passed on; the parts that run are kept.
pub proof fn failures_end_a_start(start: StartView, error: String)
    ensures
        start.after(StartEvent::Failed(error)).1 == StartAction::Failed(error),
        start.after(StartEvent::Failed(error)).0.lookup_ids == start.lookup_ids,
{
}

/// A lookup waits on for a route exactly while there is none, the time is not up, and the runtime has
/// something to do.
pub proof fn route_waits_are_bounded(
    now: Instant,
    deadline: Instant,
    active_routes: usize,
    last: RouteWaitEvent,
)
    ensures
        now >= deadline || active_routes > 0 || last == RouteWaitEvent::Idle <==> route_wait(
            now,
            deadline,
            active_routes,
            last,
        ) == RouteWaitAction::Ready,
{
}

/// A lookup with a route begins at once. One without makes the runtime bootstrap, and then waits no
/// longer than three seconds for a route.
pub proof fn lookups_wait_three_seconds(
    now: Instant,
    later: Instant,
    active_routes: usize,
    last: RouteWaitEvent,
)
    requires
        now + 3 * SECOND <= u64::MAX,
        later >= now + 3 * SECOND,
    ensures
        first_wait(active_routes) == RouteWaitAction::Ready <==> active_routes > 0,
        first_wait(active_routes) == RouteWaitAction::Bootstrap <==> active_routes == 0,
        wait_until(now) - now == 3 * SECOND,
        route_wait(later, wait_until(now), active_routes, last) == RouteWaitAction::Ready,
{
}

/// A lookup is to run over IPv6 too exactly while somebody still listens and it still takes families.
pub proof fn hedges_need_a_listener(receiver_gone: bool, accepting_families: bool)
    ensures
        hedges(receiver_gone, accepting_families) <==> accepting_families && !receiver_gone,
{
}

/// A lookup is run over an address family exactly where there is a runtime that is bound to it and
/// the lookup takes more families. It resumes what is parked there, unless the crawl is to start
/// anew, and takes nothing else out.
pub proof fn lookups_resume_what_is_parked(
    planner: PlannerView,
    metrics: DemandSliceMetrics,
    record_metrics: bool,
    runtime_available: bool,
    accepting_families: bool,
    family_bound: bool,
    info_hash: InfoHash,
    family: AddressFamily,
    class: DemandSliceClass,
    now: Instant,
    other: InfoHash,
)
    requires
        other != info_hash,
    ensures
        ({
            let (decision, after, counts) = attach_decision(
                planner,
                metrics,
                record_metrics,
                runtime_available,
                accepting_families,
                family_bound,
                info_hash,
                family,
                class,
                now,
            );
            let wanted = runtime_available && accepting_families && family_bound;
            let crawl = planner.parked_crawls[info_hash];
            let parked = match family {
                AddressFamily::Ipv4 => crawl.ipv4,
                AddressFamily::Ipv6 => crawl.ipv6,
            };
            let resumable = planner.parked_crawls.contains_key(info_hash) && crawl.reset_reason(
                class,
                now,
            ).is_none();
            &&& decision == AttachDecision::Skip <==> !wanted
            &&& !wanted ==> after == planner && counts == metrics
            &&& wanted && resumable && parked.is_some() ==> decision == AttachDecision::Resume(
                parked.unwrap(),
            )
            &&& wanted && !(resumable && parked.is_some()) ==> decision == AttachDecision::Fresh
            &&& after.parked_crawls.contains_key(other) == planner.parked_crawls.contains_key(other)
            &&& after.parked_crawls.contains_key(other) ==> after.parked_crawls[other]
                == planner.parked_crawls[other]
            &&& after.entries == planner.entries && after.drains == planner.drains
            &&& !record_metrics ==> counts == metrics
        }),
{
}

/// What is counted for a class.
pub open spec fn counts_of(
    metrics: DemandSliceMetrics,
    class: DemandSliceClass,
) -> DemandSliceClassMetrics {
    match class {
        DemandSliceClass::AwaitingMetadata => metrics.awaiting_metadata,
        DemandSliceClass::NoConnectedPeers => metrics.no_connected_peers,
        DemandSliceClass::RoutineRefresh => metrics.routine_refresh,
    }
}

/// A part of a lookup is counted as a start exactly where it runs and is to be counted, as a resumed
/// or as a fresh one, for its class alone.
pub proof fn attached_parts_are_counted(
    metrics: DemandSliceMetrics,
    record_metrics: bool,
    class: DemandSliceClass,
    resumed: bool,
    lookup_active: bool,
    other: DemandSliceClass,
)
    requires
        other != class,
        counts_of(metrics, class).fresh_starts < u64::MAX,
        counts_of(metrics, class).resumed_starts < u64::MAX,
    ensures
        ({
            let after = attached_counts(metrics, record_metrics, class, resumed, lookup_active);
            let counted = record_metrics && lookup_active;
            &&& counts_of(after, class).resumed_starts == counts_of(metrics, class).resumed_starts
                + (if counted && resumed {
                1int
            } else {
                0
            })
            &&& counts_of(after, class).fresh_starts == counts_of(metrics, class).fresh_starts + (
            if counted && !resumed {
                1int
            } else {
                0
            })
            &&& counts_of(after, other) == counts_of(metrics, other)
        }),
{
}

} // verus!
