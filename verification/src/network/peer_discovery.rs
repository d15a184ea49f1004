//! Bookkeeping of peer discovery: which peers are known and which are active,
//! and how the events of the discovery protocol change them.

use vstd::prelude::*;

verus! {

/// The peer ids held by `v`.
pub open spec fn ids_of(v: Seq<String>) -> Set<Seq<char>> {
    Set::new(|p: Seq<char>| exists|i: int| 0 <= i < v.len() && v[i]@ == p)
}

/// Whether no peer id occurs twice in `v`.
pub open spec fn ids_unique(v: Seq<String>) -> bool {
    forall|i: int, j: int| 0 <= i < j < v.len() ==> v[i]@ != v[j]@
}

/// Appending an id to a sequence adds it to the ids held.
pub proof fn lemma_ids_push(v: Seq<String>, s: String)
    ensures
        ids_of(v.push(s)) == ids_of(v).insert(s@),
{
    let u = v.push(s);
    assert forall|p: Seq<char>| ids_of(u).contains(p) == ids_of(v).insert(s@).contains(p) by {
        if ids_of(v).contains(p) {
            let i = choose|i: int| 0 <= i < v.len() && v[i]@ == p;
            assert(u[i]@ == p);
        }
        if p == s@ {
            assert(u[v.len() as int]@ == p);
        }
        if ids_of(u).contains(p) {
            let i = choose|i: int| 0 <= i < u.len() && u[i]@ == p;
            if i < v.len() {
                assert(v[i]@ == p);
            }
        }
    }
    assert(ids_of(u) =~= ids_of(v).insert(s@));
}

/// Removing the entry at `i` of a sequence without repeated ids removes
/// exactly that id.
proof fn lemma_ids_remove(v: Seq<String>, i: int)
    requires
        ids_unique(v),
        0 <= i < v.len(),
    ensures
        ids_unique(v.remove(i)),
        ids_of(v.remove(i)) == ids_of(v).remove(v[i]@),
{
    let u = v.remove(i);
    assert forall|a: int, b: int| 0 <= a < b < u.len() implies u[a]@ != u[b]@ by {
        let a2 = if a < i { a } else { a + 1 };
        let b2 = if b < i { b } else { b + 1 };
        assert(v[a2]@ != v[b2]@);
    }
    assert forall|p: Seq<char>| ids_of(u).contains(p) == ids_of(v).remove(v[i]@).contains(p) by {
        if ids_of(v).contains(p) && p != v[i]@ {
            let j = choose|j: int| 0 <= j < v.len() && v[j]@ == p;
            if j < i {
                assert(u[j]@ == p);
            } else {
                assert(u[j - 1]@ == p);
            }
        }
        if ids_of(u).contains(p) {
            let j = choose|j: int| 0 <= j < u.len() && u[j]@ == p;
            let j2 = if j < i { j } else { j + 1 };
            assert(v[j2]@ == p);
            assert(j2 != i ==> v[j2]@ != v[i]@);
        }
    }
    assert(ids_of(u) =~= ids_of(v).remove(v[i]@));
}

/// A sequence without repeated ids holds as many ids as it has entries.
proof fn lemma_ids_len(v: Seq<String>)
    requires
        ids_unique(v),
    ensures
        ids_of(v).finite(),
        ids_of(v).len() == v.len(),
    decreases v.len(),
{
    if v.len() == 0 {
        assert(ids_of(v) =~= Set::<Seq<char>>::empty());
    } else {
        let w = v.drop_last();
        assert(ids_unique(w));
        lemma_ids_len(w);
        assert(v =~= w.push(v.last()));
        lemma_ids_push(w, v.last());
        assert(!ids_of(w).contains(v.last()@)) by {
            if ids_of(w).contains(v.last()@) {
                let i = choose|i: int| 0 <= i < w.len() && w[i]@ == v.last()@;
                assert(v[i]@ != v[v.len() - 1]@);
            }
        }
    }
}

/// A set of peer ids, kept in the order they were added.
pub struct PeerSet {
    ids: Vec<String>,
}

impl PeerSet {
    #[verifier::type_invariant]
    spec fn well_formed(self) -> bool {
        ids_unique(self.ids@)
    }

    /// The peer ids in the set.
    pub closed spec fn view_set(&self) -> Set<Seq<char>> {
        ids_of(self.ids@)
    }

    /// The peer ids in the order they were added.
    pub closed spec fn order(&self) -> Seq<String> {
        self.ids@
    }

    pub fn new() -> (s: Self)
        ensures
            s.view_set() == Set::<Seq<char>>::empty(),
    {
        let s = PeerSet { ids: Vec::new() };
        assert(s.view_set() =~= Set::<Seq<char>>::empty());
        s
    }

    fn position(&self, id: &String) -> (r: Option<usize>)
        ensures
            match r {
                Some(i) => i < self.ids@.len() && self.ids@[i as int]@ == id@,
                None => !self.view_set().contains(id@),
            },
    {
        let mut i: usize = 0;
        while i < self.ids.len()
            invariant
                i <= self.ids@.len(),
                forall|j: int| 0 <= j < i ==> self.ids@[j]@ != id@,
            decreases self.ids@.len() - i,
        {
            if self.ids[i] == *id {
                return Some(i);
            }
            i = i + 1;
        }
        None
    }

    /// The number of ids in the set.
    pub fn len(&self) -> (n: usize)
        ensures
            self.view_set().finite(),
            n == self.view_set().len(),
    {
        proof {
            use_type_invariant(self);
            lemma_ids_len(self.ids@);
        }
        self.ids.len()
    }

    /// Whether `id` is in the set.
    pub fn contains(&self, id: &String) -> (b: bool)
        ensures
            b == self.view_set().contains(id@),
    {
        self.position(id).is_some()
    }

    /// Adds `id`; tells whether it was new.
    pub fn insert(&mut self, id: String) -> (added: bool)
        ensures
            final(self).view_set() == old(self).view_set().insert(id@),
            added == !old(self).view_set().contains(id@),
    {
        proof {
            use_type_invariant(&*self);
        }
        if self.position(&id).is_some() {
            assert(old(self).view_set().insert(id@) =~= old(self).view_set());
            return false;
        }
        proof {
            lemma_ids_push(self.ids@, id);
            assert forall|a: int, b: int|
                0 <= a < b < self.ids@.push(id).len() implies self.ids@.push(id)[a]@ != self.ids@.push(
                id,
            )[b]@ by {
                if b == self.ids@.len() {
                    assert(self.ids@[a]@ != id@ || !self.view_set().contains(id@));
                }
            }
        }
        let mut ids = Vec::new();
        std::mem::swap(&mut ids, &mut self.ids);
        ids.push(id);
        self.ids = ids;
        true
    }

    /// Removes `id`; tells whether it was there.
    pub fn remove(&mut self, id: &String) -> (removed: bool)
        ensures
            final(self).view_set() == old(self).view_set().remove(id@),
            removed == old(self).view_set().contains(id@),
    {
        proof {
            use_type_invariant(&*self);
        }
        match self.position(id) {
            Some(i) => {
                proof {
                    lemma_ids_remove(self.ids@, i as int);
                }
                let mut ids = Vec::new();
                std::mem::swap(&mut ids, &mut self.ids);
                ids.remove(i);
                self.ids = ids;
                true
            },
            None => {
                assert(old(self).view_set().remove(id@) =~= old(self).view_set());
                false
            },
        }
    }

    /// The peer ids, in the order they were added.
    pub fn to_vec(&self) -> (v: Vec<String>)
        ensures
            v@.len() == self.order().len(),
            forall|i: int| 0 <= i < v@.len() ==> #[trigger] v@[i]@ == self.order()[i]@,
            ids_of(v@) == self.view_set(),
    {
        let mut v: Vec<String> = Vec::new();
        let mut i: usize = 0;
        while i < self.ids.len()
            invariant
                i <= self.ids@.len(),
                v@.len() == i,
                forall|j: int| 0 <= j < i ==> #[trigger] v@[j]@ == self.ids@[j]@,
            decreases self.ids@.len() - i,
        {
            v.push(self.ids[i].clone());
            i = i + 1;
        }
        proof {
            assert forall|p: Seq<char>| ids_of(v@).contains(p) == self.view_set().contains(p) by {
                if ids_of(v@).contains(p) {
                    let j = choose|j: int| 0 <= j < v@.len() && v@[j]@ == p;
                    assert(self.ids@[j]@ == p);
                }
                if self.view_set().contains(p) {
                    let j = choose|j: int| 0 <= j < self.ids@.len() && self.ids@[j]@ == p;
                    assert(v@[j]@ == p);
                }
            }
            assert(ids_of(v@) =~= self.view_set());
        }
        v
    }
}

/// What the discovery protocol reports.
#[derive(Debug)]
pub enum DiscoveryEvent {
    /// The node listens on a new address.
    NewListenAddr { address: String },
    /// A query for the peers closest to this node answered with these peers.
    ClosestPeers(Vec<String>),
    /// A query for providers answered with these peers.
    Providers(Vec<String>),
    /// The routing table learnt of `peer`.
    RoutingUpdated { peer: String },
    /// `peer_id` can no longer be routed to.
    UnroutablePeer { peer_id: String },
    /// Any other event; it changes nothing.
    Other,
}

/// The peers an event reports as discovered.
pub open spec fn discovered_by(event: DiscoveryEvent) -> Seq<String> {
    match event {
        DiscoveryEvent::ClosestPeers(peers) => peers@,
        DiscoveryEvent::Providers(peers) => peers@,
        DiscoveryEvent::RoutingUpdated { peer } => seq![peer],
        _ => Seq::empty(),
    }
}

/// An event reports as discovered exactly the peers it carries: every peer
/// of a closest-peers or providers answer, in order, the one peer the routing
/// table learnt of, and no peer for the other events.
pub proof fn lemma_event_reports_its_peers(event: DiscoveryEvent)
    ensures
        event matches DiscoveryEvent::ClosestPeers(peers) ==> discovered_by(event).len() == peers@.len()
            && forall|i: int| 0 <= i < peers@.len() ==> #[trigger] discovered_by(event)[i] == peers@[i]
            && ids_of(discovered_by(event)).contains(peers@[i]@),
        event matches DiscoveryEvent::Providers(peers) ==> discovered_by(event).len() == peers@.len()
            && forall|i: int| 0 <= i < peers@.len() ==> #[trigger] discovered_by(event)[i] == peers@[i]
            && ids_of(discovered_by(event)).contains(peers@[i]@),
        event matches DiscoveryEvent::RoutingUpdated { peer } ==> discovered_by(event).len() == 1
            && discovered_by(event)[0] == peer && ids_of(discovered_by(event)).contains(peer@),
        event is NewListenAddr || event is UnroutablePeer || event is Other ==> discovered_by(event).len() == 0,
{
    match event {
        DiscoveryEvent::RoutingUpdated { peer } => {
            assert(discovered_by(event)[0] == peer);
        },
        _ => {},
    }
}

/// The peers known and the peers active, as discovery maintains them, and
/// the bootstrap nodes that discovery starts from.
///
/// A newly discovered peer becomes known and active; an unroutable peer is
/// forgotten from the known peers (it stays active until the connection layer
/// drops it).
pub struct PeerDiscovery {
    bootstrap_nodes: Vec<String>,
    known: PeerSet,
    active: PeerSet,
}

impl PeerDiscovery {
    pub closed spec fn known_peers(&self) -> Set<Seq<char>> {
        self.known.view_set()
    }

    pub closed spec fn active_peers(&self) -> Set<Seq<char>> {
        self.active.view_set()
    }

    /// The bootstrap nodes (their addresses), in the order given.
    pub closed spec fn bootstrap(&self) -> Seq<String> {
        self.bootstrap_nodes@
    }

    /// No peer known or active yet; `bootstrap_nodes` are kept in the order given.
    pub fn new(bootstrap_nodes: Vec<String>) -> (r: Self)
        ensures
            r.bootstrap() == bootstrap_nodes@,
            r.known_peers() == Set::<Seq<char>>::empty(),
            r.active_peers() == Set::<Seq<char>>::empty(),
    {
        PeerDiscovery { bootstrap_nodes, known: PeerSet::new(), active: PeerSet::new() }
    }

    /// The bootstrap nodes, in the order given.
    pub fn bootstrap_nodes(&self) -> (v: &Vec<String>)
        ensures
            v@ == self.bootstrap(),
    {
        &self.bootstrap_nodes
    }

    /// Records `peer` as discovered: a peer not known yet becomes known and
    /// active; a known one changes nothing. Tells whether the peer was new.
    pub fn discover_peer(&mut self, peer: String) -> (added: bool)
        ensures
            final(self).bootstrap() == old(self).bootstrap(),
            added == !old(self).known_peers().contains(peer@),
            final(self).known_peers() == old(self).known_peers().insert(peer@),
            final(self).active_peers() == (if added {
                old(self).active_peers().insert(peer@)
            } else {
                old(self).active_peers()
            }),
    {
        if self.known.contains(&peer) {
            assert(old(self).known_peers().insert(peer@) =~= old(self).known_peers());
            return false;
        }
        let copy = peer.clone();
        self.known.insert(peer);
        self.active.insert(copy);
        true
    }

    /// Records `peer` as discovered only when the key exchange with it
    /// succeeded; it becomes active only if it also speaks the QUP protocol.
    /// Tells whether the peer became known.
    pub fn discover_checked_peer(&mut self, peer: String, exchange_succeeded: bool, is_qup_node: bool) -> (added: bool)
        ensures
            final(self).bootstrap() == old(self).bootstrap(),
            added == (exchange_succeeded && !old(self).known_peers().contains(peer@)),
            final(self).known_peers() == (if added {
                old(self).known_peers().insert(peer@)
            } else {
                old(self).known_peers()
            }),
            final(self).active_peers() == (if added && is_qup_node {
                old(self).active_peers().insert(peer@)
            } else {
                old(self).active_peers()
            }),
    {
        if self.known.contains(&peer) || !exchange_succeeded {
            return false;
        }
        if is_qup_node {
            let copy = peer.clone();
            self.active.insert(copy);
        }
        self.known.insert(peer);
        true
    }

    /// Forgets the unroutable `peer` from the known peers; tells whether it was known.
    pub fn remove_peer(&mut self, peer: &String) -> (removed: bool)
        ensures
            final(self).bootstrap() == old(self).bootstrap(),
            removed == old(self).known_peers().contains(peer@),
            final(self).known_peers() == old(self).known_peers().remove(peer@),
            final(self).active_peers() == old(self).active_peers(),
    {
        self.known.remove(peer)
    }

    /// Records each of `peers` as discovered, in order.
    pub fn discover_peers(&mut self, peers: Vec<String>)
        ensures
            final(self).bootstrap() == old(self).bootstrap(),
            final(self).known_peers() == old(self).known_peers().union(ids_of(peers@)),
            final(self).active_peers() == old(self).active_peers().union(
                ids_of(peers@).difference(old(self).known_peers()),
            ),
    {
        let ghost known0 = self.known_peers();
        let ghost active0 = self.active_peers();
        let ghost boot0 = self.bootstrap();
        let mut i: usize = 0;
        while i < peers.len()
            invariant
                i <= peers@.len(),
                self.known_peers() == known0.union(ids_of(peers@.take(i as int))),
                self.bootstrap() == boot0,
                self.active_peers() == active0.union(ids_of(peers@.take(i as int)).difference(known0)),
            decreases peers@.len() - i,
        {
            proof {
                assert(peers@.take(i as int + 1) =~= peers@.take(i as int).push(peers@[i as int]));
                lemma_ids_push(peers@.take(i as int), peers@[i as int]);
            }
            let peer = peers[i].clone();
            let added = self.discover_peer(peer);
            proof {
                let before = ids_of(peers@.take(i as int));
                let after = ids_of(peers@.take(i as int + 1));
                assert(self.known_peers() =~= known0.union(after));
                if added {
                    assert(self.active_peers() =~= active0.union(after.difference(known0)));
                } else {
                    assert(self.active_peers() =~= active0.union(after.difference(known0)));
                }
            }
            i = i + 1;
        }
        assert(peers@.take(peers@.len() as int) =~= peers@);
    }

    /// Applies `event` to the known and active peers: discovered peers are
    /// recorded in order and an unroutable peer is forgotten.
    pub fn handle_event(&mut self, event: DiscoveryEvent)
        ensures
            final(self).bootstrap() == old(self).bootstrap(),
            event is UnroutablePeer ==> final(self).known_peers() == old(self).known_peers().remove(
                event->peer_id@,
            ) && final(self).active_peers() == old(self).active_peers(),
            !(event is UnroutablePeer) ==> final(self).known_peers() == old(self).known_peers().union(
                ids_of(discovered_by(event)),
            ) && final(self).active_peers() == old(self).active_peers().union(
                ids_of(discovered_by(event)).difference(old(self).known_peers()),
            ),
            event matches DiscoveryEvent::ClosestPeers(peers) ==> forall|i: int|
                0 <= i < peers@.len() ==> #[trigger] final(self).known_peers().contains(peers@[i]@),
            event matches DiscoveryEvent::Providers(peers) ==> forall|i: int|
                0 <= i < peers@.len() ==> #[trigger] final(self).known_peers().contains(peers@[i]@),
            event matches DiscoveryEvent::RoutingUpdated { peer } ==> final(self).known_peers().contains(peer@),
            event is NewListenAddr || event is Other ==> final(self).known_peers() == old(self).known_peers()
                && final(self).active_peers() == old(self).active_peers(),
    {
        proof {
            lemma_event_reports_its_peers(event);
        }
        match event {
            DiscoveryEvent::ClosestPeers(peers) => self.discover_peers(peers),
            DiscoveryEvent::Providers(peers) => self.discover_peers(peers),
            DiscoveryEvent::RoutingUpdated { peer } => {
                let ghost p = peer;
                proof {
                    lemma_ids_push(Seq::<String>::empty(), p);
                    assert(ids_of(Seq::<String>::empty()) =~= Set::<Seq<char>>::empty());
                    assert(seq![p] =~= Seq::<String>::empty().push(p));
                }
                let added = self.discover_peer(peer);
                proof {
                    assert(self.known_peers() =~= old(self).known_peers().union(ids_of(seq![p])));
                    assert(self.active_peers() =~= old(self).active_peers().union(
                        ids_of(seq![p]).difference(old(self).known_peers()),
                    ));
                }
            },
            DiscoveryEvent::UnroutablePeer { peer_id } => {
                self.remove_peer(&peer_id);
            },
            _ => {
                proof {
                    assert(ids_of(Seq::<String>::empty()) =~= Set::<Seq<char>>::empty());
                    assert(self.known_peers() =~= old(self).known_peers().union(Set::<Seq<char>>::empty()));
                    assert(self.active_peers() =~= old(self).active_peers().union(
                        Set::<Seq<char>>::empty().difference(old(self).known_peers()),
                    ));
                }
            },
        }
    }

    /// The known peers, in the order they were discovered.
    pub fn known_peer_list(&self) -> (v: Vec<String>)
        ensures
            ids_of(v@) == self.known_peers(),
    {
        self.known.to_vec()
    }

    /// The active peers, in the order they were discovered.
    pub fn get_active_peers(&self) -> (v: Vec<String>)
        ensures
            ids_of(v@) == self.active_peers(),
    {
        self.active.to_vec()
    }
}

} // verus!
