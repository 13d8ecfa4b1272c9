use vstd::prelude::*;

use crate::limits::{DHT_SWARM_SUPPORT_MAX_CONNECTED_PEERS, DHT_SWARM_SUPPORT_MIN_INTERESTED_PEERS};

verus! {

/// What a torrent wants from the service.
#[derive(Clone, Copy, Debug, PartialEq, Eq, Hash, Structural)]
pub struct DhtDemandState {
    pub awaiting_metadata: bool,
    pub connected_peers: usize,
}

impl DhtDemandState {
    pub fn is_awaiting_metadata(self) -> (yes: bool)
        ensures
            yes == self.awaiting_metadata,
    {
        self.awaiting_metadata
    }

    pub fn has_no_connected_peers(self) -> (yes: bool)
        ensures
            yes == (self.connected_peers == 0),
    {
        self.connected_peers == 0
    }
}

/// What a torrent reports of its transfers.
#[derive(Clone, Copy, Debug, PartialEq, Eq, Hash, Structural)]
pub struct DhtDemandMetrics {
    pub paused: bool,
    pub accepting_new_peers: bool,
    pub complete: bool,
    pub total_pieces: u32,
    pub completed_pieces: u32,
    pub connected_peers: usize,
    pub interested_peers: usize,
    pub peers_interested_in_us: usize,
    pub unchoked_download_peers: usize,
    pub unchoked_upload_peers: usize,
    pub downloading_peers: usize,
    pub uploading_peers: usize,
    pub download_speed_bps: u64,
    pub upload_speed_bps: u64,
    pub bytes_downloaded_this_tick: u64,
    pub bytes_uploaded_this_tick: u64,
}

/// The metrics of a torrent that has reported nothing.
pub open spec fn no_metrics() -> DhtDemandMetrics {
    DhtDemandMetrics {
        paused: false,
        accepting_new_peers: false,
        complete: false,
        total_pieces: 0,
        completed_pieces: 0,
        connected_peers: 0,
        interested_peers: 0,
        peers_interested_in_us: 0,
        unchoked_download_peers: 0,
        unchoked_upload_peers: 0,
        downloading_peers: 0,
        uploading_peers: 0,
        download_speed_bps: 0,
        upload_speed_bps: 0,
        bytes_downloaded_this_tick: 0,
        bytes_uploaded_this_tick: 0,
    }
}

impl Default for DhtDemandMetrics {
    fn default() -> (metrics: Self)
        ensures
            metrics == no_metrics(),
    {
        DhtDemandMetrics {
            paused: false,
            accepting_new_peers: false,
            complete: false,
            total_pieces: 0,
            completed_pieces: 0,
            connected_peers: 0,
            interested_peers: 0,
            peers_interested_in_us: 0,
            unchoked_download_peers: 0,
            unchoked_upload_peers: 0,
            downloading_peers: 0,
            uploading_peers: 0,
            download_speed_bps: 0,
            upload_speed_bps: 0,
            bytes_downloaded_this_tick: 0,
            bytes_uploaded_this_tick: 0,
        }
    }
}

impl DhtDemandMetrics {
    /// Everything that moves, in bits per second and in bytes of the last tick.
    pub open spec fn activity(self) -> u64 {
        self.download_speed_bps.saturating_add(self.upload_speed_bps).saturating_add(
            self.bytes_downloaded_this_tick,
        ).saturating_add(self.bytes_uploaded_this_tick)
    }

    /// Whether the torrent takes peers: it accepts them and is not paused.
    pub open spec fn takes_peers(self) -> bool {
        self.accepting_new_peers && !self.paused
    }

    /// Whether the torrent's swarm needs more than a routine lookup: a seeding torrent with
    /// enough peers that want its pieces, or a download that stands still with few peers.
    pub open spec fn needs_swarm_support(self) -> bool {
        self.takes_peers() && if self.complete {
            self.peers_interested_in_us >= DHT_SWARM_SUPPORT_MIN_INTERESTED_PEERS
        } else {
            self.completed_pieces < self.total_pieces && self.download_speed_bps == 0
                && self.connected_peers <= DHT_SWARM_SUPPORT_MAX_CONNECTED_PEERS
        }
    }

    /// Whether stronger lookups may help the torrent while nothing is transferred.
    pub open spec fn probes_when_idle(self, demand: DhtDemandState) -> bool {
        self.takes_peers() && (demand.awaiting_metadata || demand.connected_peers == 0
            || self.needs_swarm_support())
    }

    pub fn activity_bps_or_bytes(&self) -> (activity: u64)
        ensures
            activity == self.activity(),
    {
        self.download_speed_bps.saturating_add(self.upload_speed_bps).saturating_add(
            self.bytes_downloaded_this_tick,
        ).saturating_add(self.bytes_uploaded_this_tick)
    }

    pub fn wants_extended_routine_search(&self) -> (wants: bool)
        ensures
            wants == self.needs_swarm_support(),
    {
        if !self.accepting_new_peers || self.paused {
            false
        } else if self.complete {
            self.peers_interested_in_us >= DHT_SWARM_SUPPORT_MIN_INTERESTED_PEERS
        } else {
            self.completed_pieces < self.total_pieces && self.download_speed_bps == 0
                && self.connected_peers <= DHT_SWARM_SUPPORT_MAX_CONNECTED_PEERS
        }
    }

    pub fn wants_idle_speed_probe_for(&self, demand: DhtDemandState) -> (wants: bool)
        ensures
            wants == self.probes_when_idle(demand),
    {
        self.accepting_new_peers && !self.paused && (demand.is_awaiting_metadata()
            || demand.has_no_connected_peers() || self.wants_extended_routine_search())
    }
}

} // verus!
