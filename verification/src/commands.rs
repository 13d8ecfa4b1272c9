use vstd::prelude::*;

use crate::config::DhtServiceConfig;
use crate::demand::{DhtDemandMetrics, DhtDemandState};
use crate::ids::{AddressFamily, InfoHash, LookupId, PeerAddr};
use crate::peers::PeerSet;
use crate::slice::{DemandSliceClass, DemandSliceStopReason};
use crate::subscribers::ChannelKey;

verus! {

/// What the service is asked to do.
#[derive(Debug)]
#[allow(inconsistent_fields)]
pub enum DhtCommand {
    Reconfigure(DhtServiceConfig),
    RegisterDemand {
        info_hash: InfoHash,
        demand: DhtDemandState,
        subscriber_tx: ChannelKey,
        response_tx: ChannelKey,
    },
    UpdateDemand { info_hash: InfoHash, demand: DhtDemandState },
    UpdateDemandMetrics { info_hash: InfoHash, metrics: DhtDemandMetrics },
    UnregisterDemand { info_hash: InfoHash, subscriber_id: u64 },
    DemandPeers { info_hash: InfoHash, peers: Vec<PeerAddr> },
    DemandLookupFinished {
        info_hash: InfoHash,
        slice_class: DemandSliceClass,
        total_peers: usize,
        unique_peers: usize,
    },
    StartGetPeers { info_hash: InfoHash, response_tx: ChannelKey },
    StartGetPeersFamily(DhtRuntimeLookupFamilyRequest),
    CancelLookups { lookup_ids: Vec<LookupId> },
    ParkDemandLookups {
        info_hash: InfoHash,
        slice_class: DemandSliceClass,
        stop_reason: DemandSliceStopReason,
        total_peers: usize,
        unique_peers: PeerSet,
        lookup_ids: Vec<LookupId>,
    },
    FinalizeDrainedDemandLookups { info_hash: InfoHash },
    AnnouncePeer { info_hash: InfoHash, port: Option<u16>, response_tx: ChannelKey },
}

/// A request to run a lookup over one more address family: the channel that its peers go to, the
/// lookups that run for it already, whether peers have come in, and whether it still takes
/// families.
#[derive(Debug)]
pub struct DhtRuntimeLookupFamilyRequest {
    pub info_hash: InfoHash,
    pub family: AddressFamily,
    pub slice_class: DemandSliceClass,
    pub record_metrics: bool,
    pub merged_tx: ChannelKey,
    pub lookup_ids: Vec<LookupId>,
    pub first_batch_seen: bool,
    pub accepting_families: bool,
}

/// A command that concerns the runtime.
#[derive(Debug)]
pub enum DhtRuntimeCommandAction {
    StartGetPeers { info_hash: InfoHash, response_tx: ChannelKey },
    StartGetPeersFamily(DhtRuntimeLookupFamilyRequest),
    CancelLookups { lookup_ids: Vec<LookupId> },
    ParkDemandLookups {
        info_hash: InfoHash,
        slice_class: DemandSliceClass,
        stop_reason: DemandSliceStopReason,
        total_peers: usize,
        unique_peers: PeerSet,
        lookup_ids: Vec<LookupId>,
    },
    FinalizeDrainedDemandLookups { info_hash: InfoHash },
    AnnouncePeer { info_hash: InfoHash, port: Option<u16>, response_tx: ChannelKey },
}

/// What a command asks of the runtime.
#[derive(Debug)]
pub enum DhtRuntimeCommandEffect {
    StartGetPeers { info_hash: InfoHash, response_tx: ChannelKey },
    AttachLookupFamily(DhtRuntimeLookupFamilyRequest),
    CancelLookups { lookup_ids: Vec<LookupId> },
    ParkDemandLookups {
        info_hash: InfoHash,
        slice_class: DemandSliceClass,
        stop_reason: DemandSliceStopReason,
        total_peers: usize,
        unique_peers: PeerSet,
        lookup_ids: Vec<LookupId>,
    },
    FinalizeDrainedDemandLookups { info_hash: InfoHash },
    AnnouncePeer { info_hash: InfoHash, port: Option<u16>, response_tx: ChannelKey },
    StartDueDemands,
}

/// The answer to a command.
#[derive(Debug)]
pub struct DhtRuntimeCommandReduction {
    pub effects: Vec<DhtRuntimeCommandEffect>,
}

/// The rules for commands that concern the runtime.
#[derive(Debug)]
pub struct DhtRuntimeCommandModel;

impl DhtRuntimeCommandAction {
    /// The name of the action.
    pub open spec fn name(&self) -> Seq<char> {
        match *self {
            DhtRuntimeCommandAction::StartGetPeers { .. } => "start_get_peers"@,
            DhtRuntimeCommandAction::StartGetPeersFamily(_) => "start_get_peers_family"@,
            DhtRuntimeCommandAction::CancelLookups { .. } => "cancel_lookups"@,
            DhtRuntimeCommandAction::ParkDemandLookups { .. } => "park_demand_lookups"@,
            DhtRuntimeCommandAction::FinalizeDrainedDemandLookups { .. } =>
                "finalize_drained_demand_lookups"@,
            DhtRuntimeCommandAction::AnnouncePeer { .. } => "announce_peer"@,
        }
    }

    pub fn kind(&self) -> (kind: &'static str)
        ensures
            kind@ == self.name(),
    {
        match self {
            DhtRuntimeCommandAction::StartGetPeers { .. } => "start_get_peers",
            DhtRuntimeCommandAction::StartGetPeersFamily(_) => "start_get_peers_family",
            DhtRuntimeCommandAction::CancelLookups { .. } => "cancel_lookups",
            DhtRuntimeCommandAction::ParkDemandLookups { .. } => "park_demand_lookups",
            DhtRuntimeCommandAction::FinalizeDrainedDemandLookups { .. } =>
                "finalize_drained_demand_lookups",
            DhtRuntimeCommandAction::AnnouncePeer { .. } => "announce_peer",
        }
    }
}

impl DhtRuntimeCommandEffect {
    /// The name of the effect.
    pub open spec fn name(&self) -> Seq<char> {
        match *self {
            DhtRuntimeCommandEffect::StartGetPeers { .. } => "start_get_peers"@,
            DhtRuntimeCommandEffect::AttachLookupFamily(_) => "attach_lookup_family"@,
            DhtRuntimeCommandEffect::CancelLookups { .. } => "cancel_lookups"@,
            DhtRuntimeCommandEffect::ParkDemandLookups { .. } => "park_demand_lookups"@,
            DhtRuntimeCommandEffect::FinalizeDrainedDemandLookups { .. } =>
                "finalize_drained_demand_lookups"@,
            DhtRuntimeCommandEffect::AnnouncePeer { .. } => "announce_peer"@,
            DhtRuntimeCommandEffect::StartDueDemands => "start_due_demands"@,
        }
    }

    pub fn kind(&self) -> (kind: &'static str)
        ensures
            kind@ == self.name(),
    {
        match self {
            DhtRuntimeCommandEffect::StartGetPeers { .. } => "start_get_peers",
            DhtRuntimeCommandEffect::AttachLookupFamily(_) => "attach_lookup_family",
            DhtRuntimeCommandEffect::CancelLookups { .. } => "cancel_lookups",
            DhtRuntimeCommandEffect::ParkDemandLookups { .. } => "park_demand_lookups",
            DhtRuntimeCommandEffect::FinalizeDrainedDemandLookups { .. } =>
                "finalize_drained_demand_lookups",
            DhtRuntimeCommandEffect::AnnouncePeer { .. } => "announce_peer",
            DhtRuntimeCommandEffect::StartDueDemands => "start_due_demands",
        }
    }
}

/// The runtime's part of a command, where it has one.
pub open spec fn runtime_action(command: DhtCommand) -> Option<DhtRuntimeCommandAction> {
    match command {
        DhtCommand::StartGetPeers { info_hash, response_tx } => Some(
            DhtRuntimeCommandAction::StartGetPeers { info_hash, response_tx },
        ),
        DhtCommand::StartGetPeersFamily(request) => Some(
            DhtRuntimeCommandAction::StartGetPeersFamily(request),
        ),
        DhtCommand::CancelLookups { lookup_ids } => Some(
            DhtRuntimeCommandAction::CancelLookups { lookup_ids },
        ),
        DhtCommand::ParkDemandLookups {
            info_hash,
            slice_class,
            stop_reason,
            total_peers,
            unique_peers,
            lookup_ids,
        } => Some(
            DhtRuntimeCommandAction::ParkDemandLookups {
                info_hash,
                slice_class,
                stop_reason,
                total_peers,
                unique_peers,
                lookup_ids,
            },
        ),
        DhtCommand::FinalizeDrainedDemandLookups { info_hash } => Some(
            DhtRuntimeCommandAction::FinalizeDrainedDemandLookups { info_hash },
        ),
        DhtCommand::AnnouncePeer { info_hash, port, response_tx } => Some(
            DhtRuntimeCommandAction::AnnouncePeer { info_hash, port, response_tx },
        ),
        _ => None,
    }
}

/// What a command asks of the runtime. After a lookup has been parked or a drain has come to its
/// end there may be room for others.
pub open spec fn runtime_effects(action: DhtRuntimeCommandAction) -> Seq<DhtRuntimeCommandEffect> {
    match action {
        DhtRuntimeCommandAction::StartGetPeers { info_hash, response_tx } => seq![
            DhtRuntimeCommandEffect::StartGetPeers { info_hash, response_tx },
        ],
        DhtRuntimeCommandAction::StartGetPeersFamily(request) => seq![
            DhtRuntimeCommandEffect::AttachLookupFamily(request),
        ],
        DhtRuntimeCommandAction::CancelLookups { lookup_ids } => seq![
            DhtRuntimeCommandEffect::CancelLookups { lookup_ids },
        ],
        DhtRuntimeCommandAction::ParkDemandLookups {
            info_hash,
            slice_class,
            stop_reason,
            total_peers,
            unique_peers,
            lookup_ids,
        } => seq![
            DhtRuntimeCommandEffect::ParkDemandLookups {
                info_hash,
                slice_class,
                stop_reason,
                total_peers,
                unique_peers,
                lookup_ids,
            },
            DhtRuntimeCommandEffect::StartDueDemands,
        ],
        DhtRuntimeCommandAction::FinalizeDrainedDemandLookups { info_hash } => seq![
            DhtRuntimeCommandEffect::FinalizeDrainedDemandLookups { info_hash },
            DhtRuntimeCommandEffect::StartDueDemands,
        ],
        DhtRuntimeCommandAction::AnnouncePeer { info_hash, port, response_tx } => seq![
            DhtRuntimeCommandEffect::AnnouncePeer { info_hash, port, response_tx },
        ],
    }
}

impl DhtRuntimeCommandModel {
    /// Takes in a command that concerns the runtime. The others are not for it.
    pub fn update_command(command: DhtCommand) -> (reduction: Option<DhtRuntimeCommandReduction>)
        ensures
            reduction.is_some() <==> runtime_action(command).is_some(),
            reduction.is_some() ==> reduction.unwrap().effects@ == runtime_effects(
                runtime_action(command).unwrap(),
            ),
    {
        let action = match command {
            DhtCommand::StartGetPeers { info_hash, response_tx } =>
                DhtRuntimeCommandAction::StartGetPeers { info_hash, response_tx },
            DhtCommand::StartGetPeersFamily(request) =>
                DhtRuntimeCommandAction::StartGetPeersFamily(request),
            DhtCommand::CancelLookups { lookup_ids } =>
                DhtRuntimeCommandAction::CancelLookups { lookup_ids },
            DhtCommand::ParkDemandLookups {
                info_hash,
                slice_class,
                stop_reason,
                total_peers,
                unique_peers,
                lookup_ids,
            } => DhtRuntimeCommandAction::ParkDemandLookups {
                info_hash,
                slice_class,
                stop_reason,
                total_peers,
                unique_peers,
                lookup_ids,
            },
            DhtCommand::FinalizeDrainedDemandLookups { info_hash } =>
                DhtRuntimeCommandAction::FinalizeDrainedDemandLookups { info_hash },
            DhtCommand::AnnouncePeer { info_hash, port, response_tx } =>
                DhtRuntimeCommandAction::AnnouncePeer { info_hash, port, response_tx },
            DhtCommand::Reconfigure(_)
            | DhtCommand::RegisterDemand { .. }
            | DhtCommand::UpdateDemand { .. }
            | DhtCommand::UpdateDemandMetrics { .. }
            | DhtCommand::UnregisterDemand { .. }
            | DhtCommand::DemandPeers { .. }
            | DhtCommand::DemandLookupFinished { .. } => return None,
        };
        Some(Self::update(action))
    }

    pub fn update(action: DhtRuntimeCommandAction) -> (reduction: DhtRuntimeCommandReduction)
        ensures
            reduction.effects@ == runtime_effects(action),
    {
        let ghost expected = runtime_effects(action);
        let mut effects: Vec<DhtRuntimeCommandEffect> = Vec::new();
        match action {
            DhtRuntimeCommandAction::StartGetPeers { info_hash, response_tx } => {
                effects.push(DhtRuntimeCommandEffect::StartGetPeers { info_hash, response_tx });
            },
            DhtRuntimeCommandAction::StartGetPeersFamily(request) => {
                effects.push(DhtRuntimeCommandEffect::AttachLookupFamily(request));
            },
            DhtRuntimeCommandAction::CancelLookups { lookup_ids } => {
                effects.push(DhtRuntimeCommandEffect::CancelLookups { lookup_ids });
            },
            DhtRuntimeCommandAction::ParkDemandLookups {
                info_hash,
                slice_class,
                stop_reason,
                total_peers,
                unique_peers,
                lookup_ids,
            } => {
                effects.push(
                    DhtRuntimeCommandEffect::ParkDemandLookups {
                        info_hash,
                        slice_class,
                        stop_reason,
                        total_peers,
                        unique_peers,
                        lookup_ids,
                    },
                );
                effects.push(DhtRuntimeCommandEffect::StartDueDemands);
            },
            DhtRuntimeCommandAction::FinalizeDrainedDemandLookups { info_hash } => {
                effects.push(DhtRuntimeCommandEffect::FinalizeDrainedDemandLookups { info_hash });
                effects.push(DhtRuntimeCommandEffect::StartDueDemands);
            },
            DhtRuntimeCommandAction::AnnouncePeer { info_hash, port, response_tx } => {
                effects.push(DhtRuntimeCommandEffect::AnnouncePeer { info_hash, port, response_tx });
            },
        }
        assert(effects@ =~= expected);
        DhtRuntimeCommandReduction { effects }
    }
}

} // verus!
