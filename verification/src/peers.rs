use vstd::prelude::*;

use crate::clock::{elapsed, Duration, Instant};
use crate::ids::PeerAddr;

verus! {

/// A set of peers.
#[derive(Debug)]
pub struct PeerSet {
    peers: Vec<PeerAddr>,
}

impl View for PeerSet {
    type V = Set<PeerAddr>;

    closed spec fn view(&self) -> Set<PeerAddr> {
        self.peers@.to_set()
    }
}

impl PeerSet {
    /// No peer is held twice.
    pub closed spec fn wf(&self) -> bool {
        self.peers@.no_duplicates()
    }

    /// A set without peers.
    pub fn new() -> (set: Self)
        ensures
            set@ == Set::<PeerAddr>::empty(),
            set.wf(),
    {
        let set = PeerSet { peers: Vec::new() };
        assert(set@ =~= Set::<PeerAddr>::empty());
        set
    }

    /// The number of peers.
    pub fn len(&self) -> (len: usize)
        requires
            self.wf(),
        ensures
            len == self@.len(),
            self@.finite(),
    {
        proof {
            self.peers@.unique_seq_to_set();
        }
        self.peers.len()
    }

    /// Whether the set holds `peer`.
    pub fn contains(&self, peer: &PeerAddr) -> (found: bool)
        ensures
            found == self@.contains(*peer),
    {
        let mut i: usize = 0;
        while i < self.peers.len()
            invariant
                0 <= i <= self.peers@.len(),
                forall|j: int| 0 <= j < i ==> self.peers@[j] != *peer,
            decreases self.peers@.len() - i,
        {
            if self.peers[i] == *peer {
                assert(self.peers@.contains(*peer));
                return true;
            }
            i = i + 1;
        }
        false
    }

    /// Puts `peer` in. Says whether it was missing.
    pub fn insert(&mut self, peer: PeerAddr) -> (added: bool)
        requires
            old(self).wf(),
        ensures
            final(self)@ == old(self)@.insert(peer),
            added == !old(self)@.contains(peer),
            final(self).wf(),
    {
        if self.contains(&peer) {
            assert(self@ =~= old(self)@.insert(peer));
            return false;
        }
        self.peers.push(peer);
        proof {
            let before = old(self).peers@;
            assert(before =~= self.peers@.drop_last());
            assert forall|other: PeerAddr|
                self.peers@.contains(other) <==> before.contains(other) || other == peer by {
                if before.contains(other) {
                    assert(self.peers@[before.index_of(other)] == other);
                }
                if other == peer {
                    assert(self.peers@[before.len() as int] == other);
                }
            }
            assert(self@ =~= old(self)@.insert(peer));
        }
        true
    }

    /// Puts each of `peers` in.
    pub fn extend(&mut self, peers: &[PeerAddr])
        requires
            old(self).wf(),
        ensures
            final(self)@ == old(self)@.union(peers@.to_set()),
            final(self).wf(),
    {
        let mut i: usize = 0;
        assert(self@ =~= old(self)@.union(peers@.take(0).to_set()));
        while i < peers.len()
            invariant
                0 <= i <= peers@.len(),
                self@ == old(self)@.union(peers@.take(i as int).to_set()),
                self.wf(),
            decreases peers@.len() - i,
        {
            let ghost before = self@;
            self.insert(peers[i]);
            proof {
                lemma_take_to_set(peers@, i as int);
                assert(self@ =~= old(self)@.union(peers@.take(i + 1).to_set()));
            }
            i = i + 1;
        }
        assert(peers@.take(peers@.len() as int) =~= peers@);
    }

    /// The number of IPv4 peers.
    pub fn ipv4_len(&self) -> (len: usize)
        requires
            self.wf(),
        ensures
            len == self@.filter(|peer: PeerAddr| peer.is_ipv4()).len(),
            len <= self@.len(),
    {
        let ghost is_ipv4 = |peer: PeerAddr| peer.is_ipv4();
        let mut len: usize = 0;
        let mut i: usize = 0;
        assert(self.peers@.take(0).to_set().filter(is_ipv4) =~= Set::<PeerAddr>::empty());
        while i < self.peers.len()
            invariant
                0 <= i <= self.peers@.len(),
                self.wf(),
                is_ipv4 == (|peer: PeerAddr| peer.is_ipv4()),
                len <= i,
                self.peers@.take(i as int).to_set().finite(),
                len == self.peers@.take(i as int).to_set().filter(is_ipv4).len(),
            decreases self.peers@.len() - i,
        {
            proof {
                let before = self.peers@.take(i as int).to_set();
                let peer = self.peers@[i as int];
                lemma_take_to_set(self.peers@, i as int);
                if before.contains(peer) {
                    let j = self.peers@.take(i as int).index_of(peer);
                    assert(self.peers@[j] == peer);
                }
                if peer.is_ipv4() {
                    assert(before.insert(peer).filter(is_ipv4) =~= before.filter(is_ipv4).insert(
                        peer,
                    ));
                } else {
                    assert(before.insert(peer).filter(is_ipv4) =~= before.filter(is_ipv4));
                }
            }
            if self.peers[i].is_ipv4() {
                len = len + 1;
            }
            i = i + 1;
        }
        proof {
            assert(self.peers@.take(self.peers@.len() as int) =~= self.peers@);
            self.peers@.unique_seq_to_set();
        }
        len
    }
}

/// The peers that were found recently, each with the time at which it was last found.
#[derive(Debug)]
pub struct RecentUniquePeers {
    window: Duration,
    peers: Vec<PeerAddr>,
    found_at: Vec<Instant>,
}

/// The mathematical content of the recently found peers.
pub struct RecentView {
    pub window: Duration,
    pub found_at: Map<PeerAddr, Instant>,
}

impl RecentView {
    /// The record after a batch of peers has been found.
    pub open spec fn with_batch(self, now: Instant, peers: Seq<PeerAddr>) -> Self {
        RecentView {
            found_at: Map::new(
                |peer: PeerAddr| self.found_at.contains_key(peer) || peers.contains(peer),
                |peer: PeerAddr|
                    if peers.contains(peer) {
                        now
                    } else {
                        self.found_at[peer]
                    },
            ),
            ..self
        }
    }

    /// The record without the peers that were last found too long ago.
    pub open spec fn expired(self, now: Instant) -> Self {
        RecentView {
            found_at: self.found_at.restrict(
                self.found_at.dom().filter(
                    |peer: PeerAddr| elapsed(now, self.found_at[peer]) < self.window,
                ),
            ),
            ..self
        }
    }
}

impl View for RecentUniquePeers {
    type V = RecentView;

    closed spec fn view(&self) -> RecentView {
        RecentView {
            window: self.window,
            found_at: Map::new(
                |peer: PeerAddr| self.peers@.contains(peer),
                |peer: PeerAddr| self.found_at@[self.peers@.index_of(peer)],
            ),
        }
    }
}

impl RecentUniquePeers {
    /// No peer is held twice, and each has its time.
    pub closed spec fn wf(&self) -> bool {
        self.peers@.no_duplicates() && self.peers@.len() == self.found_at@.len()
    }

    /// No peers found yet.
    pub fn new(window: Duration) -> (recent: Self)
        ensures
            recent@ == (RecentView { window, found_at: Map::empty() }),
            recent.wf(),
    {
        let recent = RecentUniquePeers { window, peers: Vec::new(), found_at: Vec::new() };
        assert(recent@.found_at =~= Map::<PeerAddr, Instant>::empty());
        recent
    }

    /// Notes that a peer has been found.
    fn record(&mut self, now: Instant, peer: PeerAddr)
        requires
            old(self).wf(),
        ensures
            final(self)@ == (RecentView {
                found_at: old(self)@.found_at.insert(peer, now),
                ..old(self)@
            }),
            final(self).wf(),
    {
        let mut i: usize = 0;
        while i < self.peers.len()
            invariant
                0 <= i <= self.peers@.len(),
                *self == *old(self),
                self.wf(),
                forall|j: int| 0 <= j < i ==> self.peers@[j] != peer,
            decreases self.peers@.len() - i,
        {
            if self.peers[i] == peer {
                self.found_at[i] = now;
                proof {
                    assert(self.peers@.index_of(peer) == i);
                    assert forall|other: PeerAddr|
                        self.peers@.contains(other) && other != peer implies self.peers@.index_of(
                        other,
                    ) != i by {}
                    assert(self@.found_at =~= old(self)@.found_at.insert(peer, now));
                }
                return ;
            }
            i = i + 1;
        }
        self.peers.push(peer);
        self.found_at.push(now);
        proof {
            let before = old(self).peers@;
            assert(self.peers@ =~= before.push(peer));
            assert(self.peers@[before.len() as int] == peer);
            assert(self.peers@.index_of(peer) == before.len());
            assert forall|other: PeerAddr| #[trigger]
                self.peers@.contains(other) == (before.contains(other) || other == peer) by {
                if before.contains(other) {
                    assert(self.peers@[before.index_of(other)] == other);
                }
            }
            assert forall|other: PeerAddr| before.contains(other) implies self.peers@.index_of(
                other,
            ) == before.index_of(other) by {
                assert(self.peers@[before.index_of(other)] == other);
            }
            assert(self@.found_at =~= old(self)@.found_at.insert(peer, now));
        }
    }

    /// Notes that a batch of peers has been found.
    pub fn record_batch(&mut self, now: Instant, peers: &[PeerAddr])
        requires
            old(self).wf(),
        ensures
            final(self)@ == old(self)@.with_batch(now, peers@),
            final(self).wf(),
    {
        let mut i: usize = 0;
        assert(self@.found_at =~= old(self)@.with_batch(now, peers@.take(0)).found_at);
        while i < peers.len()
            invariant
                0 <= i <= peers@.len(),
                self@ == old(self)@.with_batch(now, peers@.take(i as int)),
                self.wf(),
            decreases peers@.len() - i,
        {
            self.record(now, peers[i]);
            proof {
                assert forall|peer: PeerAddr| #[trigger]
                    peers@.take(i + 1).contains(peer) == (peers@.take(i as int).contains(peer)
                        || peer == peers@[i as int]) by {
                    if peers@.take(i as int).contains(peer) {
                        assert(peers@.take(i + 1)[peers@.take(i as int).index_of(peer)] == peer);
                    }
                    if peer == peers@[i as int] {
                        assert(peers@.take(i + 1)[i as int] == peer);
                    }
                }
                assert(self@.found_at =~= old(self)@.with_batch(
                    now,
                    peers@.take(i + 1),
                ).found_at);
            }
            i = i + 1;
        }
        assert(peers@.take(i as int) =~= peers@);
    }

    /// Forgets the peers that were last found too long ago, and counts the others.
    pub fn unique_count(&mut self, now: Instant) -> (count: usize)
        requires
            old(self).wf(),
        ensures
            final(self)@ == old(self)@.expired(now),
            count == old(self)@.expired(now).found_at.len(),
            final(self).wf(),
    {
        let mut kept = RecentUniquePeers {
            window: self.window,
            peers: Vec::new(),
            found_at: Vec::new(),
        };
        let ghost peers = self.peers@;
        let ghost found = self@.found_at;
        let mut i: usize = 0;
        while i < self.peers.len()
            invariant
                0 <= i <= peers.len(),
                *self == *old(self),
                self.wf(),
                kept.wf(),
                kept.window == self.window,
                peers == self.peers@,
                found == self@.found_at,
                forall|peer: PeerAddr| #[trigger]
                    kept@.found_at.contains_key(peer) <==> (exists|j: int|
                        0 <= j < i && #[trigger] peers[j] == peer) && elapsed(now, found[peer])
                        < self.window,
                forall|peer: PeerAddr| #[trigger]
                    kept@.found_at.contains_key(peer) ==> kept@.found_at[peer] == found[peer],
            decreases peers.len() - i,
        {
            let peer = self.peers[i];
            let at: Instant = self.found_at[i];
            let ghost before = kept@.found_at;
            assert(peers.index_of(peer) == i);
            assert(found[peer] == at);
            if now.saturating_sub(at) < self.window {
                kept.record(at, peer);
            }
            proof {
                assert forall|other: PeerAddr| #[trigger]
                    kept@.found_at.contains_key(other) <==> (exists|j: int|
                        0 <= j < i + 1 && #[trigger] peers[j] == other) && elapsed(
                        now,
                        found[other],
                    ) < self.window by {
                    if other == peer {
                        assert(peers[i as int] == other);
                    } else {
                        assert(kept@.found_at.contains_key(other) == before.contains_key(other));
                    }
                }
            }
            i = i + 1;
        }
        proof {
            let expired = self@.expired(now).found_at;
            assert forall|peer: PeerAddr| #[trigger]
                kept@.found_at.contains_key(peer) == expired.contains_key(peer) by {
                if found.contains_key(peer) {
                    assert(peers[peers.index_of(peer)] == peer);
                }
                if exists|j: int| 0 <= j < i && #[trigger] peers[j] == peer {
                    assert(peers.contains(peer));
                }
            }
            assert(kept@.found_at =~= expired);
            kept.peers@.unique_seq_to_set();
            assert(expired.dom() =~= kept.peers@.to_set());
        }
        *self = kept;
        self.peers.len()
    }
}

/// One more element of a sequence is one more member of the set of its elements.
pub proof fn lemma_take_to_set<T>(seq: Seq<T>, i: int)
    requires
        0 <= i < seq.len(),
    ensures
        seq.take(i + 1).to_set() == seq.take(i).to_set().insert(seq[i]),
{
    assert(seq.take(i + 1) =~= seq.take(i).push(seq[i]));
    assert forall|x: T| #[trigger]
        seq.take(i + 1).to_set().contains(x) == seq.take(i).to_set().insert(seq[i]).contains(
            x,
        ) by {
        if seq.take(i).contains(x) {
            assert(seq.take(i + 1)[seq.take(i).index_of(x)] == x);
        }
        if x == seq[i] {
            assert(seq.take(i + 1)[i] == x);
        }
    }
    assert(seq.take(i + 1).to_set() =~= seq.take(i).to_set().insert(seq[i]));
}

} // verus!
