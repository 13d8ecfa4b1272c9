use vstd::prelude::*;

use crate::demand::DhtDemandState;
use crate::ids::{InfoHash, PeerAddr};
use crate::table::InfoHashMap;

verus! {

/// The number under which a channel to a waiting task is kept.
#[derive(Clone, Copy, Debug, PartialEq, Eq, Hash, Structural)]
pub struct ChannelKey(pub u64);

/// A task that waits for the peers of a demand.
#[derive(Clone, Copy, Debug, PartialEq, Eq, Structural)]
pub struct DemandSubscriber {
    pub subscriber_id: u64,
    pub subscriber_tx: ChannelKey,
}

/// What happened to the subscribers.
#[derive(Debug)]
pub enum DemandSubscriberAction {
    Register { info_hash: InfoHash, demand: DhtDemandState, subscriber_tx: ChannelKey },
    Unregister { info_hash: InfoHash, subscriber_id: u64 },
    PruneDeadSubscribers { info_hash: InfoHash, subscriber_ids: Vec<u64> },
    DeliverPeers { info_hash: InfoHash, peers: Vec<PeerAddr> },
}

/// What is to be done, or has been done, with the subscribers.
#[derive(Debug)]
pub enum DemandSubscriberEffect {
    Registered { info_hash: InfoHash, demand: DhtDemandState, subscriber_id: u64 },
    SubscriberRemoved { info_hash: InfoHash },
    DeliverPeers {
        info_hash: InfoHash,
        peers: Vec<PeerAddr>,
        deliveries: Vec<DemandSubscriber>,
    },
}

/// The answer to an action.
#[derive(Debug)]
pub struct DemandSubscriberReduction {
    pub subscriber_id: Option<u64>,
    pub effects: Vec<DemandSubscriberEffect>,
}

/// The mathematical content of an effect.
pub enum SubscriberEffectView {
    Registered { info_hash: InfoHash, demand: DhtDemandState, subscriber_id: u64 },
    SubscriberRemoved { info_hash: InfoHash },
    DeliverPeers {
        info_hash: InfoHash,
        peers: Seq<PeerAddr>,
        deliveries: Seq<DemandSubscriber>,
    },
}

impl View for DemandSubscriberEffect {
    type V = SubscriberEffectView;

    open spec fn view(&self) -> SubscriberEffectView {
        match *self {
            DemandSubscriberEffect::Registered { info_hash, demand, subscriber_id } =>
                SubscriberEffectView::Registered { info_hash, demand, subscriber_id },
            DemandSubscriberEffect::SubscriberRemoved { info_hash } =>
                SubscriberEffectView::SubscriberRemoved { info_hash },
            DemandSubscriberEffect::DeliverPeers { info_hash, peers, deliveries } =>
                SubscriberEffectView::DeliverPeers {
                info_hash,
                peers: peers@,
                deliveries: deliveries@,
            },
        }
    }
}

/// The content of a list of effects.
pub open spec fn subscriber_effects_view(effects: Seq<DemandSubscriberEffect>) -> Seq<
    SubscriberEffectView,
> {
    effects.map_values(|effect: DemandSubscriberEffect| effect@)
}

/// The subscribers of each demand.
#[derive(Debug)]
pub struct DemandSubscriberRegistry {
    pub subscribers: InfoHashMap<Vec<DemandSubscriber>>,
    pub next_subscriber_id: u64,
}

/// The mathematical content of the registry.
#[verifier::ext_equal]
pub struct RegistryView {
    pub subscribers: Map<InfoHash, Seq<DemandSubscriber>>,
    pub next_subscriber_id: u64,
}

impl View for DemandSubscriberRegistry {
    type V = RegistryView;

    open spec fn view(&self) -> RegistryView {
        RegistryView {
            subscribers: self.subscribers@.map_values(|list: Vec<DemandSubscriber>| list@),
            next_subscriber_id: self.next_subscriber_id,
        }
    }
}

/// Whether a subscriber has another id than the given one.
pub open spec fn is_other(subscriber_id: u64) -> spec_fn(DemandSubscriber) -> bool {
    |subscriber: DemandSubscriber| subscriber.subscriber_id != subscriber_id
}

impl RegistryView {
    /// The subscribers of a demand, in the order in which they came.
    pub open spec fn of(self, info_hash: InfoHash) -> Seq<DemandSubscriber> {
        if self.subscribers.contains_key(info_hash) {
            self.subscribers[info_hash]
        } else {
            seq![]
        }
    }

    /// Other subscribers for a demand; without any the demand is forgotten.
    pub open spec fn with(self, info_hash: InfoHash, list: Seq<DemandSubscriber>) -> Self {
        RegistryView {
            subscribers: if list.len() == 0 {
                self.subscribers.remove(info_hash)
            } else {
                self.subscribers.insert(info_hash, list)
            },
            ..self
        }
    }

    /// Whether a demand has a subscriber with an id.
    pub open spec fn has(self, info_hash: InfoHash, subscriber_id: u64) -> bool {
        exists|i: int|
            0 <= i < self.of(info_hash).len() && (#[trigger] self.of(info_hash)[i]).subscriber_id
                == subscriber_id
    }

    /// The registry without a subscriber.
    pub open spec fn without(self, info_hash: InfoHash, subscriber_id: u64) -> Self {
        if self.has(info_hash, subscriber_id) {
            self.with(info_hash, self.of(info_hash).filter(is_other(subscriber_id)))
        } else {
            self
        }
    }

    /// The registry without several subscribers, and an effect for each that was there.
    pub open spec fn without_all(self, info_hash: InfoHash, subscriber_ids: Seq<u64>) -> (
        Self,
        Seq<SubscriberEffectView>,
    )
        decreases subscriber_ids.len(),
    {
        if subscriber_ids.len() == 0 {
            (self, seq![])
        } else {
            let (before, effects) = self.without_all(info_hash, subscriber_ids.drop_last());
            (
                before.without(info_hash, subscriber_ids.last()),
                if before.has(info_hash, subscriber_ids.last()) {
                    effects.push(SubscriberEffectView::SubscriberRemoved { info_hash })
                } else {
                    effects
                },
            )
        }
    }
}

/// What an action leads to.
#[verifier::ext_equal]
pub struct SubscriberStep {
    pub registry: RegistryView,
    pub subscriber_id: Option<u64>,
    pub effects: Seq<SubscriberEffectView>,
}

/// What an action leads to. Each subscriber gets the next id; when the ids are used up, no more
/// subscribers are taken. Peers go to all subscribers of their demand.
pub open spec fn subscriber_step(
    registry: RegistryView,
    action: DemandSubscriberAction,
) -> SubscriberStep {
    match action {
        DemandSubscriberAction::Register { info_hash, demand, subscriber_tx } => {
            let subscriber_id = registry.next_subscriber_id;
            if subscriber_id == u64::MAX {
                SubscriberStep { registry, subscriber_id: None, effects: seq![] }
            } else {
                SubscriberStep {
                    registry: RegistryView {
                        subscribers: registry.subscribers.insert(
                            info_hash,
                            registry.of(info_hash).push(
                                DemandSubscriber { subscriber_id, subscriber_tx },
                            ),
                        ),
                        next_subscriber_id: (subscriber_id + 1) as u64,
                    },
                    subscriber_id: Some(subscriber_id),
                    effects: seq![
                        SubscriberEffectView::Registered { info_hash, demand, subscriber_id },
                    ],
                }
            }
        },
        DemandSubscriberAction::Unregister { info_hash, subscriber_id } => SubscriberStep {
            registry: registry.without(info_hash, subscriber_id),
            subscriber_id: None,
            effects: if registry.has(info_hash, subscriber_id) {
                seq![SubscriberEffectView::SubscriberRemoved { info_hash }]
            } else {
                seq![]
            },
        },
        DemandSubscriberAction::PruneDeadSubscribers { info_hash, subscriber_ids } => {
            let (after, effects) = registry.without_all(info_hash, subscriber_ids@);
            SubscriberStep { registry: after, subscriber_id: None, effects }
        },
        DemandSubscriberAction::DeliverPeers { info_hash, peers } => SubscriberStep {
            registry,
            subscriber_id: None,
            effects: if registry.subscribers.contains_key(info_hash) {
                seq![
                    SubscriberEffectView::DeliverPeers {
                        info_hash,
                        peers: peers@,
                        deliveries: registry.of(info_hash),
                    },
                ]
            } else {
                seq![]
            },
        },
    }
}

impl DemandSubscriberRegistry {
    /// No demand is held twice.
    pub open spec fn wf(&self) -> bool {
        self.subscribers.wf()
    }

    /// A registry without subscribers. The first one gets the id 1.
    pub fn new() -> (registry: Self)
        ensures
            registry@ == (RegistryView { subscribers: Map::empty(), next_subscriber_id: 1 }),
            registry.wf(),
    {
        let registry = DemandSubscriberRegistry {
            subscribers: InfoHashMap::new(),
            next_subscriber_id: 1,
        };
        assert(registry@.subscribers =~= Map::<InfoHash, Seq<DemandSubscriber>>::empty());
        registry
    }

    /// The number of subscribers of a demand.
    pub fn subscriber_count(&self, info_hash: InfoHash) -> (count: usize)
        ensures
            count == self@.of(info_hash).len(),
    {
        match self.subscribers.get(&info_hash) {
            Some(list) => list.len(),
            None => 0,
        }
    }

    /// The subscribers of a demand.
    fn list_of(&self, info_hash: InfoHash) -> (list: Vec<DemandSubscriber>)
        ensures
            list@ == self@.of(info_hash),
    {
        let mut list: Vec<DemandSubscriber> = Vec::new();
        if let Some(known) = self.subscribers.get(&info_hash) {
            let mut i: usize = 0;
            while i < known.len()
                invariant
                    0 <= i <= known@.len(),
                    list@ =~= known@.take(i as int),
                decreases known@.len() - i,
            {
                list.push(known[i]);
                i = i + 1;
            }
            assert(list@ =~= known@);
        }
        assert(list@ =~= self@.of(info_hash));
        list
    }

    /// Takes a subscriber out. Says whether it was there.
    fn remove(&mut self, info_hash: InfoHash, subscriber_id: u64) -> (removed: bool)
        requires
            old(self).wf(),
        ensures
            final(self)@ == old(self)@.without(info_hash, subscriber_id),
            removed == old(self)@.has(info_hash, subscriber_id),
            final(self).wf(),
    {
        let list = self.list_of(info_hash);
        let mut kept: Vec<DemandSubscriber> = Vec::new();
        let mut removed = false;
        let mut i: usize = 0;
        proof {
            reveal(Seq::filter);
            assert(kept@ =~= list@.take(0).filter(is_other(subscriber_id)));
        }
        while i < list.len()
            invariant
                0 <= i <= list@.len(),
                kept@ == list@.take(i as int).filter(is_other(subscriber_id)),
                removed <==> exists|j: int|
                    0 <= j < i && (#[trigger] list@[j]).subscriber_id == subscriber_id,
            decreases list@.len() - i,
        {
            proof {
                reveal(Seq::filter);
                assert(list@.take(i + 1).drop_last() =~= list@.take(i as int));
            }
            if list[i].subscriber_id == subscriber_id {
                removed = true;
            } else {
                kept.push(list[i]);
            }
            i = i + 1;
        }
        assert(list@.take(i as int) =~= list@);
        if removed {
            let ghost view = kept@;
            if kept.len() == 0 {
                self.subscribers.remove(&info_hash);
            } else {
                self.subscribers.insert(info_hash, kept);
            }
            assert(self@ =~= old(self)@.with(info_hash, view));
        }
        removed
    }

    /// Takes in what happened and says what is to be done.
    pub fn update(&mut self, action: DemandSubscriberAction) -> (reduction:
        DemandSubscriberReduction)
        requires
            old(self).wf(),
        ensures
            (SubscriberStep {
                registry: final(self)@,
                subscriber_id: reduction.subscriber_id,
                effects: subscriber_effects_view(reduction.effects@),
            }) == subscriber_step(old(self)@, action),
            final(self).wf(),
    {
        let ghost expected = subscriber_step(self@, action);
        let mut effects: Vec<DemandSubscriberEffect> = Vec::new();
        let mut registered: Option<u64> = None;
        match action {
            DemandSubscriberAction::Register { info_hash, demand, subscriber_tx } => {
                let subscriber_id: u64 = self.next_subscriber_id;
                if subscriber_id < u64::MAX {
                    let mut list = self.list_of(info_hash);
                    list.push(DemandSubscriber { subscriber_id, subscriber_tx });
                    let ghost view = list@;
                    self.subscribers.insert(info_hash, list);
                    self.next_subscriber_id = subscriber_id + 1;
                    registered = Some(subscriber_id);
                    effects.push(
                        DemandSubscriberEffect::Registered { info_hash, demand, subscriber_id },
                    );
                    assert(self@.subscribers =~= old(self)@.subscribers.insert(info_hash, view));
                }
            },
            DemandSubscriberAction::Unregister { info_hash, subscriber_id } => {
                if self.remove(info_hash, subscriber_id) {
                    effects.push(DemandSubscriberEffect::SubscriberRemoved { info_hash });
                }
            },
            DemandSubscriberAction::PruneDeadSubscribers { info_hash, subscriber_ids } => {
                let mut i: usize = 0;
                assert(subscriber_effects_view(effects@) =~= seq![]);
                while i < subscriber_ids.len()
                    invariant
                        0 <= i <= subscriber_ids@.len(),
                        self.wf(),
                        (self@, subscriber_effects_view(effects@)) == old(self)@.without_all(
                            info_hash,
                            subscriber_ids@.take(i as int),
                        ),
                    decreases subscriber_ids@.len() - i,
                {
                    assert(subscriber_ids@.take(i + 1).drop_last() =~= subscriber_ids@.take(
                        i as int,
                    ));
                    let ghost before = effects@;
                    if self.remove(info_hash, subscriber_ids[i]) {
                        effects.push(DemandSubscriberEffect::SubscriberRemoved { info_hash });
                        assert(subscriber_effects_view(effects@) =~= subscriber_effects_view(
                            before,
                        ).push(SubscriberEffectView::SubscriberRemoved { info_hash }));
                    }
                    i = i + 1;
                }
                assert(subscriber_ids@.take(i as int) =~= subscriber_ids@);
            },
            DemandSubscriberAction::DeliverPeers { info_hash, peers } => {
                if self.subscribers.contains_key(&info_hash) {
                    let deliveries = self.list_of(info_hash);
                    effects.push(
                        DemandSubscriberEffect::DeliverPeers { info_hash, peers, deliveries },
                    );
                }
            },
        }
        proof {
            assert(subscriber_effects_view(effects@) =~= expected.effects);
            assert(self@ =~= expected.registry);
        }
        DemandSubscriberReduction { subscriber_id: registered, effects }
    }
}

} // verus!
