//! Which peers the node is connected to, and which inbound connections it
//! accepts: only from allowed addresses, and only while there is room.

use vstd::prelude::*;
use crate::network::peer_discovery::PeerSet;

verus! {

/// The addresses of the connected peers, with the rules for admitting new ones.
pub struct PeerTable {
    peers: PeerSet,
    allowed_peers: PeerSet,
    max_inbound_peers: usize,
}

impl PeerTable {
    /// The addresses of the connected peers.
    pub closed spec fn connected(&self) -> Set<Seq<char>> {
        self.peers.view_set()
    }

    /// The addresses inbound connections are accepted from.
    pub closed spec fn allowed(&self) -> Set<Seq<char>> {
        self.allowed_peers.view_set()
    }

    /// How many peers may be connected for an inbound connection to be accepted.
    pub closed spec fn max_inbound(&self) -> nat {
        self.max_inbound_peers as nat
    }

    /// No connected peer; inbound connections are accepted from the addresses
    /// in `allowed_peers` while fewer than `max_inbound_peers` peers are connected.
    pub fn new(allowed_peers: Vec<String>, max_inbound_peers: usize) -> (t: Self)
        ensures
            t.connected() == Set::<Seq<char>>::empty(),
            t.allowed() == crate::network::peer_discovery::ids_of(allowed_peers@),
            t.max_inbound() == max_inbound_peers,
    {
        let mut allowed = PeerSet::new();
        let mut i: usize = 0;
        while i < allowed_peers.len()
            invariant
                i <= allowed_peers@.len(),
                allowed.view_set() == crate::network::peer_discovery::ids_of(allowed_peers@.take(i as int)),
            decreases allowed_peers@.len() - i,
        {
            proof {
                assert(allowed_peers@.take(i as int + 1) =~= allowed_peers@.take(i as int).push(
                    allowed_peers@[i as int],
                ));
                crate::network::peer_discovery::lemma_ids_push(
                    allowed_peers@.take(i as int),
                    allowed_peers@[i as int],
                );
            }
            allowed.insert(allowed_peers[i].clone());
            i = i + 1;
        }
        assert(allowed_peers@.take(allowed_peers@.len() as int) =~= allowed_peers@);
        PeerTable { peers: PeerSet::new(), allowed_peers: allowed, max_inbound_peers }
    }

    /// Whether inbound connections are accepted from `peer_addr`.
    pub fn is_allowed(&self, peer_addr: &String) -> (b: bool)
        ensures
            b == self.allowed().contains(peer_addr@),
    {
        self.allowed_peers.contains(peer_addr)
    }

    /// Whether there is room for one more inbound peer.
    pub fn can_accept_inbound_peer(&self) -> (b: bool)
        ensures
            self.connected().finite(),
            b == (self.connected().len() < self.max_inbound()),
    {
        self.peers.len() < self.max_inbound_peers
    }

    /// Records a connection to `peer_addr` (a connection the node opened itself
    /// is not subject to the inbound rules).
    pub fn add_peer(&mut self, peer_addr: String)
        ensures
            final(self).connected() == old(self).connected().insert(peer_addr@),
            final(self).allowed() == old(self).allowed(),
            final(self).max_inbound() == old(self).max_inbound(),
    {
        self.peers.insert(peer_addr);
    }

    /// Forgets the connection to `peer_addr`; tells whether there was one.
    pub fn remove_peer(&mut self, peer_addr: &String) -> (removed: bool)
        ensures
            removed == old(self).connected().contains(peer_addr@),
            final(self).connected() == old(self).connected().remove(peer_addr@),
            final(self).allowed() == old(self).allowed(),
            final(self).max_inbound() == old(self).max_inbound(),
    {
        self.peers.remove(peer_addr)
    }

    /// Decides on an inbound connection from `peer_addr`: it is accepted, and
    /// the peer recorded, exactly when the address is allowed and fewer than
    /// the maximum of peers are connected.
    pub fn admit_inbound(&mut self, peer_addr: String) -> (accepted: bool)
        ensures
            old(self).connected().finite(),
            accepted == (old(self).allowed().contains(peer_addr@) && old(self).connected().len()
                < old(self).max_inbound()),
            final(self).connected() == (if accepted {
                old(self).connected().insert(peer_addr@)
            } else {
                old(self).connected()
            }),
            final(self).allowed() == old(self).allowed(),
            final(self).max_inbound() == old(self).max_inbound(),
    {
        let ok = self.can_accept_inbound_peer();
        if self.is_allowed(&peer_addr) && ok {
            self.add_peer(peer_addr);
            true
        } else {
            false
        }
    }

    /// The addresses of the connected peers.
    pub fn connected_peers(&self) -> (v: Vec<String>)
        ensures
            crate::network::peer_discovery::ids_of(v@) == self.connected(),
    {
        self.peers.to_vec()
    }
}

/// Accepting inbound connections never takes the number of connected peers
/// above the maximum: if it was within the maximum before an admission, it is
/// after.
pub proof fn lemma_admission_respects_maximum(connected: Set<Seq<char>>, peer_addr: Seq<char>, max_inbound: nat)
    requires
        connected.finite(),
        connected.len() < max_inbound,
    ensures
        connected.insert(peer_addr).len() <= max_inbound,
{
}

} // verus!
