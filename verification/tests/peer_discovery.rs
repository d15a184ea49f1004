use zephyrchain::network::peer_discovery::{DiscoveryEvent, PeerDiscovery, PeerSet};

fn sorted(mut v: Vec<String>) -> Vec<String> {
    v.sort();
    v
}

fn ids(names: &[&str]) -> Vec<String> {
    names.iter().map(|s| s.to_string()).collect()
}

#[test]
fn peer_set_keeps_each_id_once() {
    let mut s = PeerSet::new();
    assert!(s.insert("a".to_string()));
    assert!(!s.insert("a".to_string()));
    assert!(s.insert("b".to_string()));
    assert_eq!(s.to_vec(), ids(&["a", "b"]));
    assert!(s.remove(&"a".to_string()));
    assert!(!s.remove(&"a".to_string()));
    assert!(!s.contains(&"a".to_string()));
    assert!(s.contains(&"b".to_string()));
}

#[test]
fn discovered_peer_becomes_known_and_active() {
    let mut r = PeerDiscovery::new(vec![]);
    assert!(r.discover_peer("p1".to_string()));
    assert!(!r.discover_peer("p1".to_string()));
    assert_eq!(r.known_peer_list(), ids(&["p1"]));
    assert_eq!(r.get_active_peers(), ids(&["p1"]));
}

#[test]
fn unroutable_peer_is_forgotten_but_stays_active() {
    let mut r = PeerDiscovery::new(vec![]);
    r.discover_peer("p1".to_string());
    assert!(r.remove_peer(&"p1".to_string()));
    assert!(!r.remove_peer(&"p1".to_string()));
    assert!(r.known_peer_list().is_empty());
    assert_eq!(r.get_active_peers(), ids(&["p1"]));
}

#[test]
fn rediscovered_peer_is_known_again() {
    let mut r = PeerDiscovery::new(vec![]);
    r.discover_peer("p1".to_string());
    r.remove_peer(&"p1".to_string());
    assert!(r.discover_peer("p1".to_string()));
    assert_eq!(r.known_peer_list(), ids(&["p1"]));
    assert_eq!(r.get_active_peers(), ids(&["p1"]));
}

#[test]
fn events_update_the_registry() {
    let mut r = PeerDiscovery::new(vec![]);
    r.handle_event(DiscoveryEvent::NewListenAddr { address: "/ip4/0.0.0.0/tcp/1".to_string() });
    assert!(r.known_peer_list().is_empty());
    r.handle_event(DiscoveryEvent::ClosestPeers(ids(&["a", "b", "a"])));
    r.handle_event(DiscoveryEvent::Providers(ids(&["c"])));
    r.handle_event(DiscoveryEvent::RoutingUpdated { peer: "d".to_string() });
    assert_eq!(sorted(r.known_peer_list()), ids(&["a", "b", "c", "d"]));
    r.handle_event(DiscoveryEvent::UnroutablePeer { peer_id: "b".to_string() });
    assert_eq!(sorted(r.known_peer_list()), ids(&["a", "c", "d"]));
    assert_eq!(sorted(r.get_active_peers()), ids(&["a", "b", "c", "d"]));
    r.handle_event(DiscoveryEvent::Other);
    assert_eq!(sorted(r.known_peer_list()), ids(&["a", "c", "d"]));
}

#[test]
fn checked_discovery_needs_a_successful_exchange() {
    let mut r = PeerDiscovery::new(vec![]);
    assert!(!r.discover_checked_peer("p".to_string(), false, true));
    assert!(r.known_peer_list().is_empty());
    assert!(r.discover_checked_peer("p".to_string(), true, false));
    assert_eq!(r.known_peer_list(), ids(&["p"]));
    assert!(r.get_active_peers().is_empty());
    assert!(r.discover_checked_peer("q".to_string(), true, true));
    assert_eq!(r.get_active_peers(), ids(&["q"]));
    assert!(!r.discover_checked_peer("q".to_string(), true, true));
}

use zephyrchain::network::peer_admission::PeerTable;

#[test]
fn inbound_peer_needs_an_allowed_address() {
    let mut t = PeerTable::new(ids(&["10.0.0.1:1", "10.0.0.2:1"]), 5);
    assert!(t.is_allowed(&"10.0.0.1:1".to_string()));
    assert!(!t.admit_inbound("10.9.9.9:1".to_string()));
    assert!(t.connected_peers().is_empty());
    assert!(t.admit_inbound("10.0.0.1:1".to_string()));
    assert_eq!(t.connected_peers(), ids(&["10.0.0.1:1"]));
}

#[test]
fn inbound_peers_stop_at_the_maximum() {
    let mut t = PeerTable::new(ids(&["a", "b", "c"]), 2);
    assert!(t.admit_inbound("a".to_string()));
    assert!(t.admit_inbound("b".to_string()));
    assert!(!t.can_accept_inbound_peer());
    assert!(!t.admit_inbound("c".to_string()));
    assert!(t.remove_peer(&"a".to_string()));
    assert!(t.admit_inbound("c".to_string()));
    assert_eq!(sorted(t.connected_peers()), ids(&["b", "c"]));
}

#[test]
fn outbound_connections_ignore_the_inbound_rules() {
    let mut t = PeerTable::new(vec![], 0);
    t.add_peer("out".to_string());
    assert_eq!(t.connected_peers(), ids(&["out"]));
    assert!(!t.remove_peer(&"other".to_string()));
}
