use vstd::prelude::*;

use crate::clock::Instant;
use crate::demand::DhtDemandState;
use crate::ids::InfoHash;
use crate::planner::actions::{
    effects_view, effects_wf, DemandAdmitDrainEffect, DemandCancelDrainingLookupEffect,
    DemandDrainFinalizedEffect, DemandFinalizeDrainingLookupEffect, DemandLookupFinishedEffect,
    DemandLookupParkedEffect, DemandParkActiveLookupEffect, DemandPlannerAction,
    DemandPlannerEffect, DemandPlannerPlanStats, DemandPlannerReduction, DemandStartLookupEffect,
    PlannerEffectView,
};
use crate::planner::budget::DemandPlannerBudget;
use crate::planner::counts::{DemandPlannerSelectionStats, DemandSlotCounts};
use crate::planner::drain::{
    drained_demand_lookup_ready_for_finalize, drains, evict_stale_parked_crawls,
    record_drain_peers_received,
};
use crate::planner::history::DemandPlannerState;
use crate::planner::lookups::{
    active_classes, active_demand_lookup_slot_counts, demand_lookup_launch_budget,
    drain_virtual_slot_count, ActiveDemandLookup,
};
use crate::planner::model::{DemandPlannerModel, PlannerView};
use crate::planner::plan::DemandLookupPlan;
use crate::planner::probe::{DemandPlannerIdleSpeedProbe, DemandPlannerIdleSpeedProbeStatus};
use crate::planner::selection::{
    candidate_classes, candidate_selection_reason, due_selection,
    select_due_demand_launches_with_stats, select_idle_speed_probe_launches,
    select_spare_research_launches, stats_of,
};
use crate::planner::step::{
    candidate_not_draining, class_mismatch_effects, drain_is_ready, drain_tick_step,
    finalize_effect, finalize_ready, hash_of, history_finished, history_of, launch_due, launch_for,
    lookup_finished_step, not_draining, plan_round, plannable, plannable_due, planner_step,
    reset_step, round_launches, start_all, start_one, subscriber_removed_step, PlannedLaunch,
    PlannerStep, StartFold,
};
use crate::scheduler::{DemandEntrySnapshot, DemandFinishMode, DueDemandCandidate};
use crate::slice::{DemandParkedSliceOutcome, DemandSelectionReason, DemandSliceClass};
use crate::table::InfoHashMap;

verus! {

/// The content of a reduction together with the state that it led to.
pub open spec fn step_of(model: DemandPlannerModel, reduction: DemandPlannerReduction) -> PlannerStep {
    PlannerStep {
        planner: model@,
        effects: effects_view(reduction.effects@),
        plan_stats: reduction.plan_stats,
    }
}

/// A reduction that asks for nothing.
fn quiet_reduction() -> (reduction: DemandPlannerReduction)
    ensures
        effects_view(reduction.effects@) == Seq::<PlannerEffectView>::empty(),
        effects_wf(reduction.effects@),
        reduction.plan_stats.is_none(),
{
    let reduction = DemandPlannerReduction::default();
    assert(effects_view(reduction.effects@) =~= Seq::<PlannerEffectView>::empty());
    reduction
}

/// A reduction that asks for one thing.
fn single_reduction(effect: DemandPlannerEffect) -> (reduction: DemandPlannerReduction)
    ensures
        effects_view(reduction.effects@) == seq![effect@],
        effects_wf(reduction.effects@) == effect.wf(),
        reduction.plan_stats.is_none(),
{
    let reduction = DemandPlannerReduction { effects: vec![effect], plan_stats: None };
    proof {
        assert(effects_view(reduction.effects@) =~= seq![effect@]);
        assert(reduction.effects@[0] == effect);
    }
    reduction
}

/// Remembers that a lookup has finished.
fn note_finish(
    planner_state: &mut InfoHashMap<DemandPlannerState>,
    info_hash: InfoHash,
    now: Instant,
    unique_peers: usize,
)
    ensures
        final(planner_state)@ == history_finished(old(planner_state)@, info_hash, now, unique_peers),
        old(planner_state).wf() ==> final(planner_state).wf(),
{
    let mut state = match planner_state.get(&info_hash) {
        Some(state) => *state,
        None => DemandPlannerState::default(),
    };
    state.note_finish(now, unique_peers);
    planner_state.insert(info_hash, state);
}

/// Remembers that a lookup has started.
fn note_start(
    planner_state: &mut InfoHashMap<DemandPlannerState>,
    info_hash: InfoHash,
    now: Instant,
)
    ensures
        final(planner_state)@ == old(planner_state)@.insert(
            info_hash,
            history_of(old(planner_state)@, info_hash).started(now),
        ),
        old(planner_state).wf() ==> final(planner_state).wf(),
{
    let mut state = match planner_state.get(&info_hash) {
        Some(state) => *state,
        None => DemandPlannerState::default(),
    };
    state.note_start(now);
    planner_state.insert(info_hash, state);
}

/// The launches of a planning round.
struct Round {
    launches: Vec<PlannedLaunch>,
    selection_stats: DemandPlannerSelectionStats,
    probe_selected: usize,
    spare_selected: usize,
}

impl DemandPlannerModel {
    fn reduce_runtime_reset(&mut self, now: Instant) -> (reduction: DemandPlannerReduction)
        requires
            old(self).wf(),
        ensures
            step_of(*final(self), reduction) == reset_step(old(self)@, now),
            effects_wf(reduction.effects@),
            final(self).wf(),
    {
        self.scheduler.reset_active(now);
        self.active.clear();
        self.pending_starts.clear();
        self.pending_parks.clear();
        self.parked_crawls.clear();
        self.draining_demands.clear();
        self.state.clear();
        self.budget = DemandPlannerBudget::new(now);
        self.idle_speed_probe = DemandPlannerIdleSpeedProbe::default();
        let reduction = quiet_reduction();
        assert(step_of(*self, reduction) =~= reset_step(old(self)@, now));
        reduction
    }

    /// The request to bring a drain to its end that is for another class than the demand.
    fn class_mismatch(&self, info_hash: InfoHash, demand: DhtDemandState) -> (reduction:
        DemandPlannerReduction)
        ensures
            effects_view(reduction.effects@) == class_mismatch_effects(
                self@.drains,
                info_hash,
                demand,
            ),
            effects_wf(reduction.effects@),
            reduction.plan_stats.is_none(),
    {
        match self.draining_demands.get(&info_hash) {
            Some(drain) => {
                if drain.slice_class != DemandSliceClass::from_demand(demand) {
                    single_reduction(
                        DemandPlannerEffect::FinalizeDrainingLookup(
                            DemandFinalizeDrainingLookupEffect { info_hash, force: true },
                        ),
                    )
                } else {
                    quiet_reduction()
                }
            },
            None => quiet_reduction(),
        }
    }

    fn reduce_subscriber_removed(&mut self, info_hash: InfoHash) -> (reduction:
        DemandPlannerReduction)
        requires
            old(self).wf(),
        ensures
            step_of(*final(self), reduction) == subscriber_removed_step(old(self)@, info_hash),
            effects_wf(reduction.effects@),
            final(self).wf(),
    {
        let slice_class = match self.scheduler.demand_state(info_hash) {
            Some(demand) => DemandSliceClass::from_demand(demand),
            None => DemandSliceClass::RoutineRefresh,
        };
        let mut effects: Vec<DemandPlannerEffect> = Vec::new();
        if self.scheduler.unregister(info_hash) {
            self.pending_starts.remove(&info_hash);
            self.pending_parks.remove(&info_hash);
            if let Some(lookup) = self.active.remove(&info_hash) {
                effects.push(
                    DemandPlannerEffect::ParkActiveLookup(
                        DemandParkActiveLookupEffect {
                            info_hash,
                            slice_class,
                            lookup_ids: lookup.lookup_ids,
                        },
                    ),
                );
            }
            if let Some(drain) = self.draining_demands.remove(&info_hash) {
                effects.push(
                    DemandPlannerEffect::CancelDrainingLookup(
                        DemandCancelDrainingLookupEffect {
                            info_hash,
                            lookup_ids: drain.lookup_ids,
                        },
                    ),
                );
            }
            proof {
                assert(self@.drains =~= old(self)@.drains.remove(info_hash));
            }
        }
        let reduction = DemandPlannerReduction { effects, plan_stats: None };
        assert(step_of(*self, reduction) =~= subscriber_removed_step(old(self)@, info_hash));
        reduction
    }

    fn reduce_drain_tick(&self, now: Instant, runtime_ready: &InfoHashMap<bool>) -> (reduction:
        DemandPlannerReduction)
        requires
            self.wf(),
        ensures
            step_of(*self, reduction) == drain_tick_step(self@, now, runtime_ready@),
            effects_wf(reduction.effects@),
    {
        let mut effects: Vec<DemandPlannerEffect> = Vec::new();
        let ghost keys = self@.drain_keys;
        let ghost ready = drain_is_ready(self@.drains, runtime_ready@, now);
        let mut i: usize = 0;
        proof {
            reveal(Seq::filter);
            assert(effects_view(effects@) =~= keys.take(0).filter(ready).map_values(
                finalize_ready(),
            ));
        }
        while i < self.draining_demands.len()
            invariant
                0 <= i <= keys.len(),
                self.wf(),
                keys == self.draining_demands.keys(),
                ready == drain_is_ready(self@.drains, runtime_ready@, now),
                effects_view(effects@) == keys.take(i as int).filter(ready).map_values(
                    finalize_ready(),
                ),
                effects_wf(effects@),
            decreases keys.len() - i,
        {
            let info_hash = self.draining_demands.key_at(i);
            let drain = self.draining_demands.value_at(i);
            let runtime_says = match runtime_ready.get(&info_hash) {
                Some(says) => *says,
                None => false,
            };
            let (ready_to_finalize, _) = drained_demand_lookup_ready_for_finalize(
                runtime_says,
                drain,
                now,
            );
            let ghost before = effects@;
            if ready_to_finalize {
                effects.push(
                    DemandPlannerEffect::FinalizeDrainingLookup(
                        DemandFinalizeDrainingLookupEffect { info_hash, force: false },
                    ),
                );
            }
            proof {
                reveal(Seq::filter);
                assert(keys.take(i + 1).drop_last() =~= keys.take(i as int));
                assert(keys.take(i + 1).last() == info_hash);
                assert(self@.drains[info_hash] == drain@);
                assert(ready(info_hash) == ready_to_finalize);
                if ready_to_finalize {
                    assert(effects_view(effects@) =~= effects_view(before).push(
                        finalize_effect(info_hash, false),
                    ));
                    assert(keys.take(i + 1).filter(ready) == keys.take(i as int).filter(
                        ready,
                    ).push(info_hash));
                }
                assert(effects_view(effects@) =~= keys.take(i + 1).filter(ready).map_values(
                    finalize_ready(),
                ));
            }
            i = i + 1;
        }
        assert(keys.take(i as int) =~= keys);
        DemandPlannerReduction { effects, plan_stats: None }
    }

    /// The demands that may be looked up and have no drain.
    fn plannable_due_candidates(&self, now: Instant) -> (candidates: Vec<DueDemandCandidate>)
        requires
            self.wf(),
        ensures
            candidates@ == plannable_due(self@, now),
    {
        let due = self.scheduler.due_candidates(now);
        let ghost keep = candidate_not_draining(self@.drains);
        let mut candidates: Vec<DueDemandCandidate> = Vec::new();
        let mut i: usize = 0;
        proof {
            reveal(Seq::filter);
            assert(self@.snapshots() =~= self.scheduler.snapshots());
            assert(candidates@ =~= due@.take(0).filter(keep));
        }
        while i < due.len()
            invariant
                0 <= i <= due@.len(),
                keep == candidate_not_draining(self@.drains),
                candidates@ == due@.take(i as int).filter(keep),
            decreases due@.len() - i,
        {
            proof {
                reveal(Seq::filter);
                assert(due@.take(i + 1).drop_last() =~= due@.take(i as int));
            }
            if !self.draining_demands.contains_key(&due[i].info_hash) {
                candidates.push(due[i]);
            }
            i = i + 1;
        }
        assert(due@.take(i as int) =~= due@);
        candidates
    }

    /// The demands that have no drain.
    fn plannable_snapshots(&self) -> (snapshots: Vec<DemandEntrySnapshot>)
        requires
            self.wf(),
        ensures
            snapshots@ == plannable(self@),
    {
        let all = self.scheduler.entry_snapshots();
        let ghost keep = not_draining(self@.drains);
        let mut snapshots: Vec<DemandEntrySnapshot> = Vec::new();
        let mut i: usize = 0;
        proof {
            reveal(Seq::filter);
            assert(self@.snapshots() =~= self.scheduler.snapshots());
            assert(snapshots@ =~= all@.take(0).filter(keep));
        }
        while i < all.len()
            invariant
                0 <= i <= all@.len(),
                keep == not_draining(self@.drains),
                snapshots@ == all@.take(i as int).filter(keep),
            decreases all@.len() - i,
        {
            proof {
                reveal(Seq::filter);
                assert(all@.take(i + 1).drop_last() =~= all@.take(i as int));
            }
            if !self.draining_demands.contains_key(&all[i].info_hash) {
                snapshots.push(all[i]);
            }
            i = i + 1;
        }
        assert(all@.take(i as int) =~= all@);
        snapshots
    }

    /// Picks the launches of a planning round.
    fn select_round(
        &mut self,
        due_candidates: &Vec<DueDemandCandidate>,
        demand_snapshots: &Vec<DemandEntrySnapshot>,
        active_counts: DemandSlotCounts,
        idle_probe: DemandPlannerIdleSpeedProbeStatus,
        now: Instant,
        room: usize,
    ) -> (round: Round)
        requires
            old(self).wf(),
            due_candidates@ == plannable_due(old(self)@, now),
            demand_snapshots@ == plannable(old(self)@),
            active_counts == DemandSlotCounts::zero().recorded_all(
                active_classes(old(self)@.active_keys, old(self)@.active),
            ),
        ensures
            final(self).wf(),
            ({
                let expected = round_launches(old(self)@, idle_probe, now, room);
                &&& round.launches@ == expected.launches
                &&& round.selection_stats == stats_of(
                    due_candidates@,
                    expected.due_launches,
                    now,
                )
                &&& round.probe_selected == expected.probe_count
                &&& round.spare_selected == expected.spare_count
                &&& final(self)@ == (PlannerView { budget: expected.budget, ..old(self)@ })
            }),
    {
        let selection = select_due_demand_launches_with_stats(
            due_candidates.as_slice(),
            active_counts,
            &self.parked_crawls,
            &self.state,
            &mut self.budget,
            now,
            room,
        );
        let due_launches = selection.launches;
        let mut launches: Vec<PlannedLaunch> = Vec::new();
        let mut planned_counts = active_counts;
        let mut excluded: Vec<InfoHash> = Vec::new();
        let ghost view = old(self)@;
        let mut i: usize = 0;
        assert(launches@ =~= due_launches@.map_values(launch_due(view, now)).take(0));
        assert(excluded@ =~= due_launches@.map_values(hash_of()).take(0));
        while i < due_launches.len()
            invariant
                0 <= i <= due_launches@.len(),
                view.parked_crawls == self.parked_crawls@,
                view.history == self.state@,
                launches@ == due_launches@.map_values(launch_due(view, now)).take(i as int),
                planned_counts == active_counts.recorded_all(
                    candidate_classes(due_launches@.take(i as int)),
                ),
                excluded@ == due_launches@.map_values(hash_of()).take(i as int),
            decreases due_launches@.len() - i,
        {
            let candidate = due_launches[i];
            let reason = candidate_selection_reason(
                candidate,
                &self.parked_crawls,
                &self.state,
                now,
            );
            launches.push(PlannedLaunch { candidate, reason });
            planned_counts.record(DemandSliceClass::from_demand(candidate.demand));
            excluded.push(candidate.info_hash);
            proof {
                assert(launches@ =~= due_launches@.map_values(launch_due(view, now)).take(i + 1));
                assert(excluded@ =~= due_launches@.map_values(hash_of()).take(i + 1));
                assert(candidate_classes(due_launches@.take(i + 1)).drop_last()
                    =~= candidate_classes(due_launches@.take(i as int)));
            }
            i = i + 1;
        }
        proof {
            assert(launches@ =~= due_launches@.map_values(launch_due(view, now)));
            assert(excluded@ =~= due_launches@.map_values(hash_of()));
            assert(due_launches@.take(i as int) =~= due_launches@);
        }
        let ghost due_planned = launches@;

        let mut probe_selected: usize = 0;
        if idle_probe.active && launches.len() < room {
            let probed = select_idle_speed_probe_launches(
                demand_snapshots.as_slice(),
                planned_counts,
                excluded.as_slice(),
                &self.parked_crawls,
                &self.state,
                &mut self.budget,
                now,
                room - launches.len(),
            );
            probe_selected = probed.len();
            append_launches(&mut launches, &probed, DemandSelectionReason::IdleSpeedProbe);
        } else {
            assert(launches@ =~= due_planned + Seq::<PlannedLaunch>::empty());
        }
        let mut spare_selected: usize = 0;
        if launches.len() == 0 {
            let spare = select_spare_research_launches(
                demand_snapshots.as_slice(),
                active_counts,
                &self.parked_crawls,
                &self.state,
                &mut self.budget,
                now,
                room,
            );
            spare_selected = spare.len();
            probe_selected = 0;
            append_launches(&mut launches, &spare, DemandSelectionReason::SpareCapacity);
            assert(launches@ =~= spare@.map_values(
                launch_for(DemandSelectionReason::SpareCapacity),
            ));
        }
        assert(self@ =~= (PlannerView { budget: self.budget, ..old(self)@ }));
        Round {
            launches,
            selection_stats: selection.stats,
            probe_selected,
            spare_selected,
        }
    }

    /// Starts each of the launches of a planning round.
    fn start_launches(
        &mut self,
        launches: &Vec<PlannedLaunch>,
        idle_probe: DemandPlannerIdleSpeedProbeStatus,
        now: Instant,
    ) -> (effects: Vec<DemandPlannerEffect>)
        requires
            old(self).wf(),
        ensures
            final(self).wf(),
            effects_wf(effects@),
            ({
                let fold = start_all(
                    StartFold {
                        entries: old(self)@.entries,
                        history: old(self)@.history,
                        pending_starts: old(self)@.pending_starts,
                        budget: old(self)@.budget,
                        effects: seq![],
                    },
                    launches@,
                    idle_probe,
                    now,
                );
                &&& effects_view(effects@) == fold.effects
                &&& final(self)@ == (PlannerView {
                    entries: fold.entries,
                    history: fold.history,
                    pending_starts: fold.pending_starts,
                    budget: fold.budget,
                    ..old(self)@
                })
            }),
    {
        let mut effects: Vec<DemandPlannerEffect> = Vec::new();
        let ghost start = StartFold {
            entries: self@.entries,
            history: self@.history,
            pending_starts: self@.pending_starts,
            budget: self@.budget,
            effects: seq![],
        };
        let ghost view = self@;
        let mut i: usize = 0;
        assert(effects_view(effects@) =~= seq![]);
        while i < launches.len()
            invariant
                0 <= i <= launches@.len(),
                self.wf(),
                effects_wf(effects@),
                ({
                    let fold = start_all(start, launches@.take(i as int), idle_probe, now);
                    &&& effects_view(effects@) == fold.effects
                    &&& self@ == (PlannerView {
                        entries: fold.entries,
                        history: fold.history,
                        pending_starts: fold.pending_starts,
                        budget: fold.budget,
                        ..view
                    })
                }),
            decreases launches@.len() - i,
        {
            let launch = launches[i];
            let info_hash = launch.candidate.info_hash;
            let ghost fold = start_all(start, launches@.take(i as int), idle_probe, now);
            proof {
                assert(launches@.take(i + 1).drop_last() =~= launches@.take(i as int));
            }
            i = i + 1;
            let plan = DemandLookupPlan::for_candidate(
                launch.candidate,
                &self.state,
                launch.reason,
                idle_probe,
                now,
            );
            if !self.scheduler.mark_in_progress(info_hash) {
                self.budget.refund(plan.class);
                proof {
                    let after = start_one(fold, launch, idle_probe, now);
                    assert(self@ =~= (PlannerView {
                        entries: after.entries,
                        history: after.history,
                        pending_starts: after.pending_starts,
                        budget: after.budget,
                        ..view
                    }));
                }
                continue ;
            }
            note_start(&mut self.state, info_hash, now);
            self.pending_starts.insert(info_hash, plan.class);
            let effect = DemandPlannerEffect::StartLookup(
                DemandStartLookupEffect {
                    candidate: launch.candidate,
                    plan,
                    selection_reason: launch.reason,
                },
            );
            let ghost before = effects@;
            effects.push(effect);
            proof {
                let after = start_one(fold, launch, idle_probe, now);
                assert(effects_view(effects@) =~= effects_view(before).push(effect@));
                assert(self@ =~= (PlannerView {
                    entries: after.entries,
                    history: after.history,
                    pending_starts: after.pending_starts,
                    budget: after.budget,
                    ..view
                }));
            }
        }
        assert(launches@.take(i as int) =~= launches@);
        effects
    }

    fn reduce_plan_due(&mut self, now: Instant) -> (reduction: DemandPlannerReduction)
        requires
            old(self).wf(),
        ensures
            step_of(*final(self), reduction) == plan_round(old(self)@, now),
            effects_wf(reduction.effects@),
            final(self).wf(),
    {
        evict_stale_parked_crawls(&mut self.parked_crawls, now);
        let draining_count: usize = self.draining_demands.len();
        let drain_virtual_slots: usize = drain_virtual_slot_count(draining_count);
        let launch_budget: usize = demand_lookup_launch_budget(&self.active, draining_count);
        let ghost swept = self@;
        if launch_budget == 0 {
            let reduction = quiet_reduction();
            assert(step_of(*self, reduction) =~= plan_round(old(self)@, now));
            return reduction;
        }
        let active_counts = active_demand_lookup_slot_counts(&self.active);
        let demand_snapshots = self.plannable_snapshots();
        let idle_probe = self.idle_speed_probe.observe(demand_snapshots.as_slice(), now);
        self.budget.refill(now);
        let due_candidates = self.plannable_due_candidates(now);
        let ghost ready = PlannerView { budget: old(self)@.budget.refilled(now), ..swept };
        proof {
            assert(plannable(self@) == plannable(swept)) by {
                assert(self@.snapshots() =~= swept.snapshots());
            }
            assert(plannable_due(self@, now) == plannable_due(ready, now)) by {
                assert(self@.snapshots() =~= ready.snapshots());
            }
        }
        let ghost observed = self@;
        let round = self.select_round(
            &due_candidates,
            &demand_snapshots,
            active_counts,
            idle_probe,
            now,
            launch_budget,
        );
        proof {
            lemma_round_ignores_probe(ready, observed, idle_probe, now, launch_budget);
        }
        let effects = self.start_launches(&round.launches, idle_probe, now);
        let ghost started = self.budget;
        let budget_awaiting: usize = self.budget.available(DemandSliceClass::AwaitingMetadata, now);
        let budget_no_peers: usize = self.budget.available(DemandSliceClass::NoConnectedPeers, now);
        let budget_routine: usize = self.budget.available(DemandSliceClass::RoutineRefresh, now);
        let reduction = DemandPlannerReduction {
            effects,
            plan_stats: Some(
                DemandPlannerPlanStats {
                    launch_budget,
                    due_total: due_candidates.len(),
                    selection_stats: round.selection_stats,
                    spare_selected: round.spare_selected,
                    idle_probe_selected: round.probe_selected,
                    idle_probe_active: idle_probe.active,
                    idle_probe_demand_count: idle_probe.demand_count,
                    active_counts,
                    parked_count: self.parked_crawls.len(),
                    draining_count,
                    drain_virtual_slots,
                    budget_awaiting,
                    budget_no_peers,
                    budget_routine,
                },
            ),
        };
        proof {
            assert(self.budget == started.refilled(now));
            assert(step_of(*self, reduction) =~= plan_round(old(self)@, now));
        }
        reduction
    }

    fn reduce_lookup_finished(
        &mut self,
        info_hash: InfoHash,
        slice_class: DemandSliceClass,
        total_peers: usize,
        unique_peers: usize,
        now: Instant,
    ) -> (reduction: DemandPlannerReduction)
        requires
            old(self).wf(),
        ensures
            step_of(*final(self), reduction) == lookup_finished_step(
                old(self)@,
                info_hash,
                slice_class,
                total_peers,
                unique_peers,
                now,
            ),
            effects_wf(reduction.effects@),
            final(self).wf(),
    {
        let previous = self.scheduler.entry_snapshot(info_hash);
        self.active.remove(&info_hash);
        note_finish(&mut self.state, info_hash, now, unique_peers);
        self.scheduler.finish(info_hash, now);
        let reduction = single_reduction(
            DemandPlannerEffect::LookupFinished(
                DemandLookupFinishedEffect {
                    info_hash,
                    slice_class,
                    total_peers,
                    unique_peers,
                    previous,
                    current: self.scheduler.entry_snapshot(info_hash),
                    finished_at: now,
                },
            ),
        );
        assert(step_of(*self, reduction) =~= lookup_finished_step(
            old(self)@,
            info_hash,
            slice_class,
            total_peers,
            unique_peers,
            now,
        ));
        reduction
    }

    /// Takes in what happened and says what is to be done.
    pub fn update(&mut self, action: DemandPlannerAction<'_>) -> (reduction: DemandPlannerReduction)
        requires
            old(self).wf(),
            action.wf(),
        ensures
            step_of(*final(self), reduction) == planner_step(old(self)@, action),
            effects_wf(reduction.effects@),
            final(self).wf(),
    {
        let ghost before = self@;
        let reduction = match action {
            DemandPlannerAction::RuntimeReset { now } => self.reduce_runtime_reset(now),
            DemandPlannerAction::DemandRegistered { info_hash, demand, now } => {
                self.scheduler.register(info_hash, demand, now);
                self.class_mismatch(info_hash, demand)
            },
            DemandPlannerAction::DemandUpdated { info_hash, demand, now } => {
                self.scheduler.update(info_hash, demand, now);
                self.class_mismatch(info_hash, demand)
            },
            DemandPlannerAction::DemandMetricsUpdated { info_hash, metrics } => {
                self.scheduler.update_metrics(info_hash, metrics);
                quiet_reduction()
            },
            DemandPlannerAction::DemandSubscriberRemoved { info_hash } =>
                self.reduce_subscriber_removed(info_hash),
            DemandPlannerAction::PeersReceived { info_hash, peers } =>
                record_drain_peers_received(&mut self.draining_demands, info_hash, peers),
            DemandPlannerAction::DrainTick { now, runtime_ready } => self.reduce_drain_tick(
                now,
                &runtime_ready,
            ),
            DemandPlannerAction::PlanDue { now, runtime_available } => {
                if runtime_available {
                    self.reduce_plan_due(now)
                } else {
                    quiet_reduction()
                }
            },
            DemandPlannerAction::LookupStarted { info_hash, slice_class, lookup_ids } => {
                self.pending_starts.remove(&info_hash);
                self.active.insert(info_hash, ActiveDemandLookup { lookup_ids, slice_class });
                quiet_reduction()
            },
            DemandPlannerAction::LookupStartFailed { info_hash, slice_class, now } => {
                self.pending_starts.remove(&info_hash);
                self.budget.refund(slice_class);
                self.scheduler.finish(info_hash, now);
                quiet_reduction()
            },
            DemandPlannerAction::LookupFinished {
                info_hash,
                slice_class,
                total_peers,
                unique_peers,
                now,
            } => self.reduce_lookup_finished(
                info_hash,
                slice_class,
                total_peers,
                unique_peers,
                now,
            ),
            DemandPlannerAction::LookupParkRequested {
                info_hash,
                slice_class,
                stop_reason,
                total_peers,
                unique_peers,
                lookup_ids,
            } => {
                let previous = self.scheduler.entry_snapshot(info_hash);
                self.active.remove(&info_hash);
                self.pending_parks.insert(info_hash, slice_class);
                single_reduction(
                    DemandPlannerEffect::AdmitDrain(
                        DemandAdmitDrainEffect {
                            info_hash,
                            slice_class,
                            stop_reason,
                            total_peers,
                            unique_peers,
                            lookup_ids,
                            previous,
                        },
                    ),
                )
            },
            DemandPlannerAction::LookupParkResolved {
                info_hash,
                slice_class,
                stop_reason,
                total_peers,
                unique_peers,
                parked_outcome,
                drain_admission,
                previous,
                now,
            } => {
                self.pending_parks.remove(&info_hash);
                if drain_admission.is_none() {
                    note_finish(&mut self.state, info_hash, now, unique_peers);
                    self.scheduler.finish(info_hash, now);
                }
                let should_finalize_drain = drain_admission.is_some()
                    && match self.scheduler.demand_state(info_hash) {
                    Some(demand) => DemandSliceClass::from_demand(demand) != slice_class,
                    None => false,
                };
                let mut reduction = single_reduction(
                    DemandPlannerEffect::LookupParked(
                        DemandLookupParkedEffect {
                            info_hash,
                            slice_class,
                            stop_reason,
                            total_peers,
                            unique_peers,
                            parked_outcome,
                            drain_admission,
                            previous,
                            current: self.scheduler.entry_snapshot(info_hash),
                            parked_at: now,
                        },
                    ),
                );
                let ghost parked = effects_view(reduction.effects@);
                if should_finalize_drain {
                    let ghost effects = reduction.effects@;
                    reduction.effects.push(
                        DemandPlannerEffect::FinalizeDrainingLookup(
                            DemandFinalizeDrainingLookupEffect { info_hash, force: true },
                        ),
                    );
                    assert(effects_view(reduction.effects@) =~= parked + seq![
                        finalize_effect(info_hash, true),
                    ]);
                } else {
                    assert(effects_view(reduction.effects@) =~= parked + seq![]);
                }
                reduction
            },
            DemandPlannerAction::DrainedLookupFinalized { info_hash, outcome, previous, now } => {
                note_finish(&mut self.state, info_hash, now, outcome.unique_peers);
                let healthy_zero_yield = match outcome.parked_outcome {
                    Some(parked_outcome) => parked_outcome
                        == DemandParkedSliceOutcome::HealthyZeroYield,
                    None => false,
                };
                let finish_mode = if outcome.slice_class == DemandSliceClass::NoConnectedPeers
                    && healthy_zero_yield {
                    DemandFinishMode::AcceleratedNoConnectedPeersBackoff
                } else {
                    DemandFinishMode::Standard
                };
                self.scheduler.finish_with_mode(info_hash, now, finish_mode);
                single_reduction(
                    DemandPlannerEffect::DrainFinalized(
                        DemandDrainFinalizedEffect {
                            info_hash,
                            outcome,
                            finish_mode,
                            previous,
                            current: self.scheduler.entry_snapshot(info_hash),
                            finalized_at: now,
                            parked: self.parked_crawls.contains_key(&info_hash),
                        },
                    ),
                )
            },
        };
        assert(step_of(*self, reduction) =~= planner_step(before, action));
        reduction
    }
}

/// Adds launches for one reason.
fn append_launches(
    launches: &mut Vec<PlannedLaunch>,
    candidates: &Vec<DueDemandCandidate>,
    reason: DemandSelectionReason,
)
    ensures
        final(launches)@ == old(launches)@ + candidates@.map_values(launch_for(reason)),
{
    let mut i: usize = 0;
    while i < candidates.len()
        invariant
            0 <= i <= candidates@.len(),
            launches@ =~= old(launches)@ + candidates@.map_values(launch_for(reason)).take(
                i as int,
            ),
        decreases candidates@.len() - i,
    {
        launches.push(PlannedLaunch { candidate: candidates[i], reason });
        i = i + 1;
    }
    assert(launches@ =~= old(launches)@ + candidates@.map_values(launch_for(reason)));
}

/// What a planning round launches does not depend on the probe's own state.
proof fn lemma_round_ignores_probe(
    left: PlannerView,
    right: PlannerView,
    status: DemandPlannerIdleSpeedProbeStatus,
    now: Instant,
    room: usize,
)
    requires
        right == (PlannerView { probe: right.probe, ..left }),
    ensures
        round_launches(left, status, now, room) == round_launches(right, status, now, room),
{
    assert(left.snapshots() =~= right.snapshots());
    let due = due_selection(
        plannable_due(left, now),
        DemandSlotCounts::zero().recorded_all(active_classes(left.active_keys, left.active)),
        left.parked_crawls,
        left.history,
        left.budget,
        now,
        room,
    );
    assert(due.launches.map_values(launch_due(left, now)) =~= due.launches.map_values(
        launch_due(right, now),
    ));
}

} // verus!
