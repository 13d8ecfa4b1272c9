pub mod actions;
pub mod budget;
pub mod checks;
pub mod count_laws;
pub mod counts;
pub mod crawl;
pub mod crawl_laws;
pub mod demand_laws;
pub mod drain;
pub mod drain_laws;
pub mod history;
pub mod invariants;
pub mod lookup_ops;
pub mod lookups;
pub mod metrics;
pub mod model;
pub mod order_laws;
pub mod plan;
pub mod plan_laws;
pub mod probe;
pub mod ranking;
pub mod reducer;
pub mod round_laws;
pub mod selection;
pub mod selection_laws;
pub mod start_laws;
pub mod step;
pub mod stop_laws;
pub mod tally_laws;
pub mod views;
