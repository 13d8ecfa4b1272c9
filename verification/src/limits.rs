use vstd::prelude::*;

use crate::clock::{MILLISECOND, SECOND};

verus! {

// How often a demand is looked up again.

/// The pause between lookups for a torrent that has connected peers.
pub const DHT_ROUTINE_LOOKUP_REFRESH_INTERVAL: u64 = 60 * SECOND;

/// The first pause between lookups for a torrent without connected peers.
pub const DHT_NO_CONNECTED_PEERS_BASE_INTERVAL: u64 = 16 * SECOND;

/// The longest pause between lookups for a torrent without connected peers.
pub const DHT_NO_CONNECTED_PEERS_MAX_INTERVAL: u64 = 256 * SECOND;

/// The pause between lookups for a torrent that waits for its metadata.
pub const DHT_AWAITING_METADATA_REFRESH_INTERVAL: u64 = SECOND;

// How many lookups run at once.

/// The slots that running lookups and drains share.
pub const DHT_DEMAND_LOOKUP_SLOT_COUNT: usize = 10;

/// The most lookups that one planning round starts.
pub const DHT_DEMAND_LOOKUP_SLOT_FILL_PER_TICK: usize = 5;

/// The drains that together take up one slot.
pub const DHT_DRAIN_LOOKUPS_PER_VIRTUAL_SLOT: usize = 16;

/// The most lookups that run at once for torrents that wait for metadata.
pub const DHT_AWAITING_METADATA_SLOT_CAP: usize = 8;

/// The most lookups that run at once for torrents without connected peers.
pub const DHT_NO_CONNECTED_PEERS_SLOT_CAP: usize = 6;

/// The most lookups that run at once for torrents with connected peers.
pub const DHT_ROUTINE_LOOKUP_SLOT_CAP: usize = 4;

// How fast lookups are launched.

/// The fractions that one launch token is counted in.
pub const DHT_PLANNER_TOKEN_SCALE: u64 = 1_000;

/// The milliseconds over which a bucket's refill rate is given.
pub const REFILL_PERIOD_MS: u64 = 60_000;

pub const DHT_AWAITING_METADATA_LAUNCHES_PER_MINUTE: u64 = 120;

pub const DHT_AWAITING_METADATA_LAUNCH_BURST: u64 = 20;

pub const DHT_NO_CONNECTED_PEERS_LAUNCHES_PER_MINUTE: u64 = 30;

pub const DHT_NO_CONNECTED_PEERS_LAUNCH_BURST: u64 = 10;

pub const DHT_ROUTINE_REFRESH_LAUNCHES_PER_MINUTE: u64 = 20;

pub const DHT_ROUTINE_REFRESH_LAUNCH_BURST: u64 = 8;

// How candidates are weighed against each other.

/// How long overdue a demand must be to go ahead of the others of its class.
pub const DHT_DEMAND_FAIRNESS_AGE: u64 = 180 * SECOND;

/// The score of a torrent that waits for its metadata.
pub const DHT_METADATA_PRIORITY_SCORE: u64 = 100_000;

/// What being overdue for long adds to a score.
pub const DHT_FAIRNESS_PRIORITY_SCORE: u64 = 20_000;

/// What a swarm in need of support adds to a score.
pub const DHT_SWARM_SUPPORT_PRIORITY_SCORE: u64 = 10_000;

/// The most that the last yield adds to a score.
pub const DHT_YIELD_PRIORITY_SCORE_CAP: u64 = 1_000;

/// The yield that is still recent enough to make the next lookup stronger.
pub const DHT_DEMAND_USEFUL_YIELD_BOOST_MAX_AGE: u64 = 300 * SECOND;

/// The yield that is recent enough to make the next lookup much stronger.
pub const DHT_DEMAND_STRONG_YIELD_BOOST_MAX_AGE: u64 = 60 * SECOND;

/// The yield that is large enough to make the next lookup much stronger.
pub const DHT_DEMAND_STRONG_YIELD_BOOST_MIN_UNIQUE_PEERS: usize = 16;

/// The interested peers at which a seeding torrent counts as in need of support.
pub const DHT_SWARM_SUPPORT_MIN_INTERESTED_PEERS: usize = 3;

/// The connected peers up to which a stalled download counts as in need of support.
pub const DHT_SWARM_SUPPORT_MAX_CONNECTED_PEERS: usize = 4;

// Research with spare capacity.

/// The number of running lookups at which there is no spare capacity.
pub const DHT_DEMAND_SPARE_RESEARCH_MAX_ACTIVE: usize = 1;

/// The most lookups that one planning round starts with spare capacity.
pub const DHT_DEMAND_SPARE_RESEARCH_LAUNCH_LIMIT: usize = 1;

/// How long a demand rests before spare capacity is spent on it.
pub const DHT_DEMAND_SPARE_RESEARCH_MIN_INTERVAL: u64 = 30 * SECOND;

// Probing while nothing is transferred.

pub const DHT_IDLE_SPEED_PROBE_2X_MIN_IDLE: u64 = 30 * SECOND;

pub const DHT_IDLE_SPEED_PROBE_3X_MIN_IDLE: u64 = 60 * SECOND;

pub const DHT_IDLE_SPEED_PROBE_4X_MIN_IDLE: u64 = 120 * SECOND;

/// How long each step of the way back to normal strength takes.
pub const DHT_IDLE_SPEED_PROBE_DECAY_INTERVAL: u64 = 30 * SECOND;

// The length of one slice of a lookup.

pub const DHT_AWAITING_METADATA_SLICE_IDLE_TIMEOUT: u64 = 6 * SECOND;

pub const DHT_AWAITING_METADATA_SLICE_WALL_TIME: u64 = 20 * SECOND;

pub const DHT_AWAITING_METADATA_SLICE_UNIQUE_PEER_CAP: usize = 128;

pub const DHT_NO_CONNECTED_PEERS_SLICE_IDLE_TIMEOUT: u64 = 4 * SECOND;

pub const DHT_NO_CONNECTED_PEERS_SLICE_WALL_TIME: u64 = 12 * SECOND;

pub const DHT_NO_CONNECTED_PEERS_SLICE_UNIQUE_PEER_CAP: usize = 48;

pub const DHT_ROUTINE_SUPPORT_SLICE_IDLE_TIMEOUT: u64 = 4 * SECOND;

pub const DHT_ROUTINE_SUPPORT_SLICE_WALL_TIME: u64 = 10 * SECOND;

pub const DHT_ROUTINE_SUPPORT_SLICE_UNIQUE_PEER_CAP: usize = 48;

pub const DHT_ROUTINE_SLICE_IDLE_TIMEOUT: u64 = 2 * SECOND;

pub const DHT_ROUTINE_SLICE_WALL_TIME: u64 = 6 * SECOND;

pub const DHT_ROUTINE_SLICE_UNIQUE_PEER_CAP: usize = 16;

// Parked crawls.

/// The age at which a parked crawl is no longer worth resuming.
pub const DHT_PARKED_CRAWL_MAX_AGE: u64 = 600 * SECOND;

pub const DHT_AWAITING_METADATA_STALLED_EMPTY_SLICE_RESET_THRESHOLD: u32 = 4;

pub const DHT_NO_CONNECTED_PEERS_STALLED_EMPTY_SLICE_RESET_THRESHOLD: u32 = 3;

pub const DHT_ROUTINE_STALLED_EMPTY_SLICE_RESET_THRESHOLD: u32 = 2;

pub const DHT_AWAITING_METADATA_STALLED_LOW_YIELD_SLICE_MAX_UNIQUE_PEERS: usize = 2;

pub const DHT_NO_CONNECTED_PEERS_STALLED_LOW_YIELD_SLICE_MAX_UNIQUE_PEERS: usize = 2;

pub const DHT_ROUTINE_STALLED_LOW_YIELD_SLICE_MAX_UNIQUE_PEERS: usize = 1;

pub const DHT_NO_CONNECTED_PEERS_WEAK_PARKED_MIN_VISITED: usize = 12;

pub const DHT_NO_CONNECTED_PEERS_WEAK_PARKED_MAX_RESPONDERS: usize = 3;

pub const DHT_NO_CONNECTED_PEERS_WEAK_PARKED_MAX_FRONTIER: usize = 8;

pub const DHT_NO_CONNECTED_PEERS_WEAK_PARKED_MAX_RECEIVED_PEERS: usize = 12;

pub const DHT_ROUTINE_WEAK_PARKED_MIN_VISITED: usize = 8;

pub const DHT_ROUTINE_WEAK_PARKED_MAX_RESPONDERS: usize = 2;

pub const DHT_ROUTINE_WEAK_PARKED_MAX_FRONTIER: usize = 4;

pub const DHT_ROUTINE_WEAK_PARKED_MAX_RECEIVED_PEERS: usize = 4;

// Drains.

/// The longest that a stopped lookup is left to collect late answers.
pub const DHT_DEMAND_DRAIN_MAX_AGE: u64 = 5 * SECOND;

/// How often drains are looked at.
pub const DHT_DEMAND_DRAIN_POLL_INTERVAL: u64 = 250 * MILLISECOND;

/// The most queries that all drains together may have in flight.
pub const DHT_DEMAND_DRAIN_MAX_INFLIGHT_QUERIES: usize = 256;

pub const DHT_AWAITING_METADATA_DRAIN_NO_LATE_YIELD_GRACE: u64 = 1_500 * MILLISECOND;

pub const DHT_DEMAND_DRAIN_NO_LATE_YIELD_GRACE: u64 = SECOND;

pub const DHT_ROUTINE_DRAIN_NO_LATE_YIELD_GRACE: u64 = 500 * MILLISECOND;

// The service's own rhythm.

pub const DHT_DEMAND_SCHEDULER_INTERVAL: u64 = SECOND;

pub const DHT_MAINTENANCE_INTERVAL: u64 = 60 * SECOND;

pub const DHT_HEALTH_REFRESH_INTERVAL: u64 = 30 * SECOND;

pub const DHT_STARTUP_BOOTSTRAP_DELAY: u64 = 5 * SECOND;

/// How long a lookup waits for a first route before it goes ahead without one.
pub const DHT_LOOKUP_BOOTSTRAP_WAIT: u64 = 3 * SECOND;

/// The longest that one step of that wait takes.
pub const DHT_LOOKUP_BOOTSTRAP_STEP: u64 = 200 * MILLISECOND;

/// How long the IPv6 half of a lookup trails the IPv4 half.
pub const DHT_IPV6_HEDGE_DELAY: u64 = 500 * MILLISECOND;

/// How long a peer counts as found recently.
pub const DHT_UNIQUE_PEERS_FOUND_WINDOW: u64 = 10 * SECOND;

} // verus!
