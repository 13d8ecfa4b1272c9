use vstd::prelude::*;

verus! {

/// Whether the actions and effects of the service are reported.
pub fn dht_actor_monitor_enabled() -> (enabled: bool)
    ensures
        !enabled,
{
    false
}

/// Whether the actions and effects of the planner are reported.
pub fn demand_planner_monitor_enabled() -> (enabled: bool)
    ensures
        !enabled,
{
    false
}

/// Whether the planner's invariants are checked after each action.
pub fn dht_invariant_checks_enabled() -> (enabled: bool)
    ensures
        !enabled,
{
    false
}

/// The shape of one reduction: the action, and the effects that it led to.
#[derive(Debug)]
pub struct ActionEffectSnapshot {
    pub domain: &'static str,
    pub action: &'static str,
    pub effect_count: usize,
    pub effects: Vec<&'static str>,
}

/// The shape of a reduction.
pub fn action_effect_snapshot(
    domain: &'static str,
    action: &'static str,
    effects: Vec<&'static str>,
) -> (snapshot: ActionEffectSnapshot)
    ensures
        snapshot.domain == domain,
        snapshot.action == action,
        snapshot.effect_count == effects@.len(),
        snapshot.effects@ == effects@,
{
    ActionEffectSnapshot { domain, action, effect_count: effects.len(), effects }
}

} // verus!
