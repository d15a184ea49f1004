use vstd::prelude::*;
use std::collections::HashMap;

verus! {

broadcast use vstd::std_specs::hash::group_hash_axioms;

/// How a message for a shard is delivered.
#[derive(Debug)]
pub enum ShardRoute {
    /// Straight to this member of the shard's committee.
    Direct(String),
    /// Through the relay nodes, tried in order until one accepts it.
    ViaRelays,
}

/// The committee member chosen for a shard: members take turns by shard id.
pub open spec fn chosen_member(shard_id: u64, members: Seq<String>) -> String {
    members[((shard_id as usize) % (members.len() as usize)) as int]
}

/// Routing of messages between shards: the committee of each known shard, and
/// relay nodes for the others.
pub struct ShardNetwork {
    routing_table: HashMap<u64, Vec<String>>,
    relay_nodes: Vec<String>,
}

impl ShardNetwork {
    /// The committee members of each shard that has a route.
    pub closed spec fn routes_spec(&self) -> Map<u64, Seq<String>> {
        Map::new(|k: u64| self.routing_table@.contains_key(k), |k: u64| self.routing_table@[k]@)
    }

    /// The relay nodes, in the order they were added.
    pub closed spec fn relays_spec(&self) -> Seq<String> {
        self.relay_nodes@
    }

    /// No route and no relay node.
    pub fn new() -> (n: Self)
        ensures
            n.routes_spec() == Map::<u64, Seq<String>>::empty(),
            n.relays_spec() == Seq::<String>::empty(),
    {
        let n = ShardNetwork { routing_table: HashMap::new(), relay_nodes: Vec::new() };
        assert(n.routes_spec() =~= Map::<u64, Seq<String>>::empty());
        n
    }

    /// Sets the committee of a shard, replacing any earlier one.
    pub fn update_routing_table(&mut self, shard_id: u64, committee_members: Vec<String>)
        ensures
            final(self).routes_spec() == old(self).routes_spec().insert(shard_id, committee_members@),
            final(self).relays_spec() == old(self).relays_spec(),
    {
        let ghost members = committee_members@;
        self.routing_table.insert(shard_id, committee_members);
        assert(self.routes_spec() =~= old(self).routes_spec().insert(shard_id, members));
    }

    /// Adds a relay node after the existing ones.
    pub fn add_relay_node(&mut self, node: String)
        ensures
            final(self).relays_spec() == old(self).relays_spec().push(node),
            final(self).routes_spec() == old(self).routes_spec(),
    {
        self.relay_nodes.push(node);
    }

    /// The committee of a shard, if it has a route.
    pub fn committee(&self, shard_id: u64) -> (r: Option<&Vec<String>>)
        ensures
            match r {
                Some(m) => self.routes_spec().contains_key(shard_id) && m@ == self.routes_spec()[shard_id],
                None => !self.routes_spec().contains_key(shard_id),
            },
    {
        self.routing_table.get(&shard_id)
    }

    /// The relay nodes, in the order they are tried.
    pub fn relay_nodes(&self) -> (r: &Vec<String>)
        ensures
            r@ == self.relays_spec(),
    {
        &self.relay_nodes
    }

    /// The member of a committee that receives a shard's messages.
    pub fn select_committee_member(&self, shard_id: u64, committee_members: &Vec<String>) -> (m: String)
        requires
            committee_members@.len() > 0,
        ensures
            m == chosen_member(shard_id, committee_members@),
    {
        let index = (shard_id as usize) % committee_members.len();
        committee_members[index].clone()
    }

    /// How a message for the target shard is delivered: directly to a member of
    /// its committee when the shard has a route, through the relays otherwise.
    pub fn route(&self, target_shard_id: u64) -> (r: ShardRoute)
        requires
            self.routes_spec().contains_key(target_shard_id) ==> self.routes_spec()[target_shard_id].len() > 0,
        ensures
            self.routes_spec().contains_key(target_shard_id) ==> r == ShardRoute::Direct(
                chosen_member(target_shard_id, self.routes_spec()[target_shard_id]),
            ),
            !self.routes_spec().contains_key(target_shard_id) ==> r == ShardRoute::ViaRelays,
    {
        match self.routing_table.get(&target_shard_id) {
            Some(committee_members) => ShardRoute::Direct(
                self.select_committee_member(target_shard_id, committee_members),
            ),
            None => ShardRoute::ViaRelays,
        }
    }
}

} // verus!
