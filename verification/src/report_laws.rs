use vstd::prelude::*;

use crate::clock::{Instant, MILLISECOND, SECOND};
use crate::codec::{hex_text, hex_value};
use crate::demand::{DhtDemandMetrics, DhtDemandState};
use crate::fuzzing::{fuzz_run, fuzz_step, number_at, text_at, time_of, LifecycleEffectView};
use crate::ids::InfoHash;
use crate::planner::actions::{DemandPlannerAction, DemandPlannerEffect};
use crate::planner::checks::{first_violation, DemandPlannerViolation};
use crate::planner::counts::{class_total, recorded_all_counts, DemandSlotCounts};
use crate::planner::lookups::active_classes;
use crate::planner::model::PlannerView;
use crate::planner::order_laws::needs_support;
use crate::planner::views::{DemandPlannerActionView, DemandPlannerEffectView};
use crate::slice::DemandSliceClass;
use crate::text::{decimal, digit};

verus! {

// Reports.

/// The kind of lookup that a demand calls for.
pub open spec fn kind_of(demand: DhtDemandState) -> DemandSliceClass {
    if demand.awaiting_metadata {
        DemandSliceClass::AwaitingMetadata
    } else if demand.connected_peers == 0 {
        DemandSliceClass::NoConnectedPeers
    } else {
        DemandSliceClass::RoutineRefresh
    }
}

/// The report of a registration or a change says whose demand it is and what it is.
pub proof fn reports_tell_demands(info_hash: InfoHash, demand: DhtDemandState, now: Instant)
    ensures
        ({
            let joined = DemandPlannerActionView::told(
                DemandPlannerAction::DemandRegistered { info_hash, demand, now },
            );
            let changed = DemandPlannerActionView::told(
                DemandPlannerAction::DemandUpdated { info_hash, demand, now },
            );
            &&& joined == changed
            &&& joined.info_hash == Some(info_hash)
            &&& joined.demand_class == Some(kind_of(demand))
            &&& joined.demand_awaiting_metadata == Some(demand.awaiting_metadata)
            &&& joined.demand_connected_peers == Some(demand.connected_peers)
            &&& joined.slice_class.is_none() && joined.metrics_paused.is_none()
        }),
{
}

/// The report of new measurements gives each of them.
pub proof fn reports_tell_measurements(info_hash: InfoHash, metrics: DhtDemandMetrics)
    ensures
        ({
            let report = DemandPlannerActionView::told(
                DemandPlannerAction::DemandMetricsUpdated { info_hash, metrics },
            );
            &&& report.info_hash == Some(info_hash)
            &&& report.metrics_paused == Some(metrics.paused)
            &&& report.metrics_accepting_new_peers == Some(metrics.accepting_new_peers)
            &&& report.metrics_complete == Some(metrics.complete)
            &&& report.metrics_total_pieces == Some(metrics.total_pieces)
            &&& report.metrics_completed_pieces == Some(metrics.completed_pieces)
            &&& report.metrics_connected_peers == Some(metrics.connected_peers)
            &&& report.metrics_interested_peers == Some(metrics.interested_peers)
            &&& report.metrics_peers_interested_in_us == Some(metrics.peers_interested_in_us)
            &&& report.metrics_unchoked_download_peers == Some(metrics.unchoked_download_peers)
            &&& report.metrics_unchoked_upload_peers == Some(metrics.unchoked_upload_peers)
            &&& report.metrics_downloading_peers == Some(metrics.downloading_peers)
            &&& report.metrics_uploading_peers == Some(metrics.uploading_peers)
            &&& report.metrics_download_speed_bps == Some(metrics.download_speed_bps)
            &&& report.metrics_upload_speed_bps == Some(metrics.upload_speed_bps)
            &&& report.metrics_bytes_downloaded_this_tick == Some(metrics.bytes_downloaded_this_tick)
            &&& report.metrics_bytes_uploaded_this_tick == Some(metrics.bytes_uploaded_this_tick)
            &&& report.metrics_wants_extended_routine == Some(needs_support(metrics))
            &&& metrics.download_speed_bps + metrics.upload_speed_bps
                + metrics.bytes_downloaded_this_tick + metrics.bytes_uploaded_this_tick
                <= u64::MAX ==> report.metrics_activity == Some(
                (metrics.download_speed_bps + metrics.upload_speed_bps
                    + metrics.bytes_downloaded_this_tick
                    + metrics.bytes_uploaded_this_tick) as u64,
            )
        }),
{
}

/// The report of an action about a lookup says whose lookup it is and of which class, and, as far as
/// the action knows, what it found and why it stopped.
pub proof fn reports_tell_lookups(action: DemandPlannerAction)
    ensures
        ({
            let report = DemandPlannerActionView::told(action);
            &&& action matches DemandPlannerAction::LookupStarted { info_hash, slice_class, .. } ==> {
                &&& report.info_hash == Some(info_hash) && report.slice_class == Some(slice_class)
                &&& report.total_peers.is_none() && report.stop_reason.is_none()
            }
            &&& action matches DemandPlannerAction::LookupStartFailed {
                info_hash,
                slice_class,
                ..
            } ==> report.info_hash == Some(info_hash) && report.slice_class == Some(slice_class)
            &&& action matches DemandPlannerAction::LookupFinished {
                info_hash,
                slice_class,
                total_peers,
                unique_peers,
                ..
            } ==> {
                &&& report.info_hash == Some(info_hash) && report.slice_class == Some(slice_class)
                &&& report.total_peers == Some(total_peers) && report.unique_peers == Some(
                    unique_peers,
                )
                &&& report.stop_reason.is_none()
            }
            &&& action matches DemandPlannerAction::LookupParkRequested {
                info_hash,
                slice_class,
                stop_reason,
                total_peers,
                unique_peers,
                ..
            } ==> {
                &&& report.info_hash == Some(info_hash) && report.slice_class == Some(slice_class)
                &&& report.total_peers == Some(total_peers) && report.unique_peers == Some(
                    unique_peers@.len() as usize,
                )
                &&& report.stop_reason == Some(stop_reason)
            }
            &&& action matches DemandPlannerAction::LookupParkResolved {
                info_hash,
                slice_class,
                stop_reason,
                total_peers,
                unique_peers,
                ..
            } ==> {
                &&& report.info_hash == Some(info_hash) && report.slice_class == Some(slice_class)
                &&& report.total_peers == Some(total_peers) && report.unique_peers == Some(
                    unique_peers,
                )
                &&& report.stop_reason == Some(stop_reason)
            }
            &&& action matches DemandPlannerAction::DrainedLookupFinalized {
                info_hash,
                outcome,
                ..
            } ==> {
                &&& report.info_hash == Some(info_hash) && report.slice_class == Some(
                    outcome.slice_class,
                )
                &&& report.total_peers == Some(outcome.total_peers) && report.unique_peers == Some(
                    outcome.unique_peers,
                )
                &&& report.stop_reason == Some(outcome.stop_reason)
            }
            &&& action matches DemandPlannerAction::PlanDue { runtime_available, .. }
                ==> report.runtime_available == Some(runtime_available)
                && report.info_hash.is_none()
            &&& action matches DemandPlannerAction::PeersReceived { info_hash, peers }
                ==> report.info_hash == Some(info_hash) && report.peer_count == Some(
                peers@.len() as usize,
            )
            &&& action matches DemandPlannerAction::DemandSubscriberRemoved { info_hash }
                ==> report.info_hash == Some(info_hash)
            &&& action is RuntimeReset ==> report.info_hash.is_none()
        }),
{
}

/// The report of a start gives its plan, in milliseconds, why it was picked, and all that is known of
/// its demand.
pub proof fn reports_tell_starts(effect: DemandPlannerEffect)
    requires
        effect is StartLookup,
    ensures
        effect matches DemandPlannerEffect::StartLookup(start) && {
            let report = DemandPlannerEffectView::told(effect);
            let demand = start.candidate.demand;
            let metrics = start.candidate.metrics;
            &&& report.info_hash == Some(start.candidate.info_hash)
            &&& report.slice_class == Some(start.plan.class)
            &&& report.selection_reason == Some(start.selection_reason)
            &&& report.subscriber_count == Some(start.candidate.subscriber_count)
            &&& report.plan_idle_timeout_ms == Some((start.plan.idle_timeout / 1_000_000) as u64)
            &&& report.plan_max_wall_time_ms == Some((start.plan.max_wall_time / 1_000_000) as u64)
            &&& report.plan_stop_after_first_batch == Some(start.plan.stop_after_first_batch)
            &&& report.plan_unique_peer_cap == Some(start.plan.unique_peer_cap)
            &&& report.plan_power_multiplier == Some(start.plan.power_multiplier)
            &&& report.demand_class == Some(kind_of(demand))
            &&& report.demand_awaiting_metadata == Some(demand.awaiting_metadata)
            &&& report.demand_connected_peers == Some(demand.connected_peers)
            &&& report.metrics_paused == Some(metrics.paused)
            &&& report.metrics_accepting_new_peers == Some(metrics.accepting_new_peers)
            &&& report.metrics_complete == Some(metrics.complete)
            &&& report.metrics_total_pieces == Some(metrics.total_pieces)
            &&& report.metrics_completed_pieces == Some(metrics.completed_pieces)
            &&& report.metrics_connected_peers == Some(metrics.connected_peers)
            &&& report.metrics_interested_peers == Some(metrics.interested_peers)
            &&& report.metrics_peers_interested_in_us == Some(metrics.peers_interested_in_us)
            &&& report.metrics_unchoked_download_peers == Some(metrics.unchoked_download_peers)
            &&& report.metrics_unchoked_upload_peers == Some(metrics.unchoked_upload_peers)
            &&& report.metrics_downloading_peers == Some(metrics.downloading_peers)
            &&& report.metrics_uploading_peers == Some(metrics.uploading_peers)
            &&& report.metrics_download_speed_bps == Some(metrics.download_speed_bps)
            &&& report.metrics_upload_speed_bps == Some(metrics.upload_speed_bps)
            &&& report.metrics_bytes_downloaded_this_tick == Some(metrics.bytes_downloaded_this_tick)
            &&& report.metrics_bytes_uploaded_this_tick == Some(metrics.bytes_uploaded_this_tick)
            &&& report.metrics_wants_extended_routine == Some(needs_support(metrics))
            &&& report.metrics_wants_idle_probe == Some(
                metrics.accepting_new_peers && !metrics.paused && (demand.awaiting_metadata
                    || demand.connected_peers == 0 || needs_support(metrics)),
            )
        },
{
}

/// The report of any other effect says whose it is and what it found, stopped or ended.
pub proof fn reports_tell_effects(effect: DemandPlannerEffect)
    ensures
        ({
            let report = DemandPlannerEffectView::told(effect);
            &&& effect matches DemandPlannerEffect::LookupFinished(finished) ==> {
                &&& report.info_hash == Some(finished.info_hash)
                &&& report.slice_class == Some(finished.slice_class)
                &&& report.total_peers == Some(finished.total_peers)
                &&& report.unique_peers == Some(finished.unique_peers)
                &&& report.stop_reason.is_none() && report.parked.is_none()
            }
            &&& effect matches DemandPlannerEffect::AdmitDrain(stopped) ==> {
                &&& report.info_hash == Some(stopped.info_hash)
                &&& report.slice_class == Some(stopped.slice_class)
                &&& report.stop_reason == Some(stopped.stop_reason)
                &&& report.total_peers == Some(stopped.total_peers)
                &&& report.unique_peers == Some(stopped.unique_peers@.len() as usize)
            }
            &&& effect matches DemandPlannerEffect::LookupParked(parked) ==> {
                &&& report.info_hash == Some(parked.info_hash)
                &&& report.slice_class == Some(parked.slice_class)
                &&& report.stop_reason == Some(parked.stop_reason)
                &&& report.total_peers == Some(parked.total_peers)
                &&& report.unique_peers == Some(parked.unique_peers)
                &&& report.parked == Some(parked.drain_admission.is_some())
            }
            &&& effect matches DemandPlannerEffect::DrainFinalized(ended) ==> {
                &&& report.info_hash == Some(ended.info_hash)
                &&& report.slice_class == Some(ended.outcome.slice_class)
                &&& report.stop_reason == Some(ended.outcome.stop_reason)
                &&& report.total_peers == Some(ended.outcome.total_peers)
                &&& report.unique_peers == Some(ended.outcome.unique_peers)
                &&& report.parked == Some(ended.parked)
                &&& report.finish_mode == Some(ended.finish_mode)
            }
            &&& effect matches DemandPlannerEffect::ParkActiveLookup(park) ==> report.info_hash
                == Some(park.info_hash) && report.slice_class == Some(park.slice_class)
            &&& effect matches DemandPlannerEffect::CancelDrainingLookup(cancel)
                ==> report.info_hash == Some(cancel.info_hash) && report.lookup_count == Some(
                cancel.lookup_ids@.len() as usize,
            )
            &&& effect matches DemandPlannerEffect::FinalizeDrainingLookup(end) ==> report.info_hash
                == Some(end.info_hash) && report.force == Some(end.force)
            &&& effect matches DemandPlannerEffect::DrainPeersRecorded(late) ==> {
                &&& report.info_hash == Some(late.info_hash)
                &&& report.peer_count == Some(late.peer_count)
                &&& report.unique_added == Some(late.unique_added)
                &&& late.initial_unique_peers + late.unique_added <= usize::MAX
                    ==> report.unique_peers == Some(
                    (late.initial_unique_peers + late.unique_added) as usize,
                )
            }
        }),
{
}

// The check of the planner's state.

/// Whether something runs, drains, starts or is being parked for a demand.
pub open spec fn has_work(planner: PlannerView, info_hash: InfoHash) -> bool {
    planner.active.contains_key(info_hash) || planner.drains.contains_key(info_hash)
        || planner.pending_starts.contains_key(info_hash) || planner.pending_parks.contains_key(
        info_hash,
    )
}

/// A planner passes its check only where each demand is marked exactly while there is work for it, is
/// wanted, and is in one stage at a time, and where no class runs more than its lookups, nor all
/// together with the drains more than ten.
pub proof fn passed_checks_mean_order(planner: PlannerView, info_hash: InfoHash)
    requires
        first_violation(planner).is_none(),
        planner.active_keys.len() + planner.drain_keys.len() < usize::MAX - 16,
    ensures
        has_work(planner, info_hash) <==> planner.entries.contains_key(info_hash)
            && planner.entries[info_hash].in_progress,
        planner.entries.contains_key(info_hash) ==> planner.entries[info_hash].subscriber_count > 0,
        planner.active.contains_key(info_hash) ==> !planner.drains.contains_key(info_hash)
            && !planner.pending_starts.contains_key(info_hash)
            && !planner.pending_parks.contains_key(info_hash),
        planner.pending_starts.contains_key(info_hash) ==> !planner.drains.contains_key(info_hash)
            && !planner.pending_parks.contains_key(info_hash),
        16 * planner.active_keys.len() + planner.drain_keys.len() <= 160,
        class_total(
            active_classes(planner.active_keys, planner.active),
            DemandSliceClass::AwaitingMetadata,
        ) <= 8,
        class_total(
            active_classes(planner.active_keys, planner.active),
            DemandSliceClass::NoConnectedPeers,
        ) <= 6,
        class_total(
            active_classes(planner.active_keys, planner.active),
            DemandSliceClass::RoutineRefresh,
        ) <= 4,
{
    let classes = active_classes(planner.active_keys, planner.active);
    recorded_all_counts(DemandSlotCounts::zero(), classes, DemandSliceClass::AwaitingMetadata);
    recorded_all_counts(DemandSlotCounts::zero(), classes, DemandSliceClass::NoConnectedPeers);
    recorded_all_counts(DemandSlotCounts::zero(), classes, DemandSliceClass::RoutineRefresh);
    lemma_total(classes, DemandSliceClass::AwaitingMetadata);
    lemma_total(classes, DemandSliceClass::NoConnectedPeers);
    lemma_total(classes, DemandSliceClass::RoutineRefresh);
    assert(crate::planner::invariants::is_busy(planner, info_hash) == has_work(planner, info_hash));
    assert(crate::planner::invariants::is_marked(planner, info_hash) == (
    planner.entries.contains_key(info_hash) && planner.entries[info_hash].in_progress));
    if crate::planner::invariants::is_marked(planner, info_hash) {
        assert(Some(info_hash) != None::<InfoHash>);
    }
}

proof fn lemma_total(classes: Seq<DemandSliceClass>, class: DemandSliceClass)
    ensures
        class_total(classes, class) <= classes.len(),
    decreases classes.len(),
{
    if classes.len() > 0 {
        lemma_total(classes.drop_last(), class);
    }
}

/// Work for a demand that is not marked is the first thing that the check names, then marks without
/// work, then demands without subscribers, then demands in two stages, and last too much work.
pub proof fn checks_name_the_first_fault(planner: PlannerView, info_hash: InfoHash)
    ensures
        ({
            let entry = planner.entries[info_hash];
            let marked = planner.entries.contains_key(info_hash) && entry.in_progress;
            let fault = first_violation(planner);
            &&& has_work(planner, info_hash) && !marked ==> fault == Some(
                DemandPlannerViolation::UnmarkedWork,
            )
            &&& marked && !has_work(planner, info_hash) ==> fault == Some(
                DemandPlannerViolation::UnmarkedWork,
            ) || fault == Some(DemandPlannerViolation::IdleMark)
            &&& planner.entries.contains_key(info_hash) && entry.subscriber_count == 0
                ==> fault == Some(DemandPlannerViolation::UnmarkedWork) || fault == Some(
                DemandPlannerViolation::IdleMark,
            ) || fault == Some(DemandPlannerViolation::UnwantedDemand)
        }),
{
    assert(crate::planner::invariants::is_busy(planner, info_hash) == has_work(planner, info_hash));
    assert(crate::planner::invariants::is_marked(planner, info_hash) == (
    planner.entries.contains_key(info_hash) && planner.entries[info_hash].in_progress));
    if crate::planner::invariants::is_marked(planner, info_hash) {
        assert(Some(info_hash) != None::<InfoHash>);
    }
}

// Texts.

/// The number that decimal digits stand for.
pub open spec fn value_of(text: Seq<char>) -> nat
    decreases text.len(),
{
    if text.len() == 0 {
        0
    } else {
        10 * value_of(text.drop_last()) + ((text.last() as u32) - ('0' as u32)) as nat
    }
}

/// Decimal digits stand for the number that they were made of, and begin with no needless zero.
pub proof fn decimals_read_back(n: nat)
    ensures
        value_of(decimal(n)) == n,
        decimal(n).len() > 0,
        n > 0 ==> decimal(n)[0] != '0',
        forall|i: int| 0 <= i < decimal(n).len() ==> '0' <= #[trigger] decimal(n)[i] <= '9',
    decreases n,
{
    if n < 10 {
        assert(seq![digit(n)].drop_last() =~= Seq::<char>::empty());
        assert(value_of(Seq::<char>::empty()) == 0);
        assert(seq![digit(n)].last() == digit(n));
    } else {
        decimals_read_back(n / 10);
        assert(decimal(n / 10).push(digit(n % 10)).drop_last() =~= decimal(n / 10));
    }
}

/// Bytes are written with two digits each, from 0 to 9 and from a to f, the higher one first.
pub proof fn hex_digits_are_lower_case(bytes: Seq<u8>, i: int)
    requires
        0 <= i < bytes.len(),
    ensures
        hex_text(bytes).len() == 2 * bytes.len(),
        ({
            let high = hex_text(bytes)[2 * i];
            let low = hex_text(bytes)[2 * i + 1];
            &&& '0' <= high <= '9' || 'a' <= high <= 'f'
            &&& '0' <= low <= '9' || 'a' <= low <= 'f'
            &&& hex_value(high) == Some((bytes[i] / 16) as u8)
            &&& hex_value(low) == Some((bytes[i] % 16) as u8)
        }),
{
    assert((2 * i) / 2 == i && (2 * i + 1) / 2 == i);
}

/// A digit of either case stands for the same number, in the order of the digits, and no other
/// character stands for one.
pub proof fn hex_digits_have_no_case(digit: char)
    ensures
        hex_value(digit).is_some() <==> '0' <= digit <= '9' || 'a' <= digit <= 'f' || 'A' <= digit
            <= 'F',
        'a' <= digit <= 'f' ==> hex_value(digit) == Some(((digit as u32) - 87) as u8),
        'A' <= digit <= 'F' ==> hex_value(digit) == Some(((digit as u32) - 55) as u8),
        '0' <= digit <= '9' ==> hex_value(digit) == Some(((digit as u32) - 48) as u8),
{
}

// Any bytes as actions.

/// The first byte of an action gives its kind by its remainder of eight; the effects are those of the
/// action that the following bytes make up.
pub proof fn bytes_stand_for_actions(bytes: Seq<u8>, offset: usize, base: Instant)
    requires
        offset + 50 < bytes.len() <= usize::MAX,
    ensures
        ({
            let (effects, taken) = fuzz_step(bytes, offset, base);
            let o = offset as int;
            let kind = bytes[o] % 8;
            let letters = bytes[o + 1] % 32;
            &&& kind == 1 ==> taken == 1 && effects =~= seq![
                LifecycleEffectView::ClearStartupBootstrapDue,
            ]
            &&& kind == 5 ==> taken == 1 && effects =~= seq![
                LifecycleEffectView::PublishStatus,
                LifecycleEffectView::ExpireRecentUniquePeers,
                LifecycleEffectView::SaveRuntimeState,
            ]
            &&& kind == 7 ==> taken == 1 && effects =~= seq![LifecycleEffectView::SaveRuntimeState]
            &&& kind == 4 || kind == 6 ==> taken == 2 + letters && effects =~= seq![
                LifecycleEffectView::RecordRuntimeWarning {
                    warning: text_at(bytes, (offset + 1) as usize),
                    publish_status: true,
                },
            ]
            &&& kind == 2 ==> taken == 6 + letters && effects =~= seq![
                LifecycleEffectView::RecordRuntimeWarning {
                    warning: text_at(bytes, (offset + 1) as usize),
                    publish_status: false,
                },
                LifecycleEffectView::SetStartupBootstrapDue(
                    time_of(base, number_at(bytes, (offset + 2 + letters) as usize)),
                ),
            ]
            &&& kind == 3 ==> taken == if bytes[o + 1] % 2 == 0 {
                2nat
            } else {
                3nat
            }
            &&& kind == 3 ==> (effects =~= seq![LifecycleEffectView::RunMaintenance]
                <==> bytes[o + 1] % 2 == 1 && bytes[o + 2] % 4 == 0)
            &&& kind == 0 ==> taken == 10 && (effects =~= seq![
                LifecycleEffectView::RunStartupBootstrap,
            ] <==> time_of(base, number_at(bytes, (offset + 5) as usize)) <= time_of(
                base,
                number_at(bytes, (offset + 1) as usize),
            ) && bytes[o + 9] % 4 == 0)
        }),
{
}

/// A number in four bytes has the first one as its highest.
pub proof fn numbers_begin_with_the_highest(bytes: Seq<u8>, offset: usize)
    requires
        offset + 4 <= bytes.len() <= usize::MAX,
    ensures
        number_at(bytes, offset) == ((bytes[offset as int] * 256 + bytes[offset + 1]) * 256
            + bytes[offset + 2]) * 256 + bytes[offset + 3],
{
}

/// A text in the input is a number of lower-case letters below 32, one for each following byte.
pub proof fn texts_are_lower_case(bytes: Seq<u8>, offset: usize, i: int)
    requires
        offset + 33 <= bytes.len() <= usize::MAX,
        0 <= i < text_at(bytes, offset).len(),
    ensures
        text_at(bytes, offset).len() == bytes[offset as int] % 32,
        'a' <= text_at(bytes, offset)[i] <= 'z',
        text_at(bytes, offset)[i] as u32 == 97 + bytes[offset + 1 + i] % 26,
{
}

/// A time in the input lies less than ten minutes behind the base, in whole milliseconds.
pub proof fn times_lie_within_ten_minutes(base: Instant, value: u32)
    requires
        base + 600 * SECOND <= u64::MAX,
    ensures
        base <= time_of(base, value) < base + 600 * SECOND,
        time_of(base, value) - base == (value % 600_000) * MILLISECOND,
{
}

/// One more action follows where the last one ended, and adds what it leads to.
pub proof fn actions_follow_each_other(bytes: Seq<u8>, base: Instant, steps: nat)
    requires
        steps > 0,
        fuzz_run(bytes, base, (steps - 1) as nat).1 < usize::MAX - 100,
    ensures
        ({
            let (before, offset) = fuzz_run(bytes, base, (steps - 1) as nat);
            let (after, next) = fuzz_run(bytes, base, steps);
            let (more, taken) = fuzz_step(bytes, offset, base);
            &&& after =~= before + more
            &&& next == offset + taken
            &&& fuzz_run(bytes, base, 0).1 == 1
        }),
{
}

} // verus!
