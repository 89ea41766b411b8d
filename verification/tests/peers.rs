use tx_pigeon::address::{Endpoint, IpHost, NetworkAddress};
use tx_pigeon::peers::{
    discover_libre_peers, CachedPeers, PeerCache, PeerSet, NODE_CACHE_DURATION_NS,
};
use tx_pigeon::seeds::{
    discover_seed_addresses, gather_seed_addresses, seed_lookups, SEED_LOOKUP_TIMEOUT_MS,
};

const MINUTE: u128 = 60_000_000_000;

fn endpoint(n: u32) -> Endpoint {
    Endpoint { ip: IpHost::V4(n), port: 8333 }
}

fn ip(n: u32) -> NetworkAddress {
    NetworkAddress::Ip(endpoint(n))
}

fn onion(s: &str) -> NetworkAddress {
    NetworkAddress::Onion(s.to_string())
}

#[test]
fn a_node_is_in_a_set_once() {
    let mut set = PeerSet::new();
    assert!(set.is_empty());
    set.insert(ip(1));
    set.insert(onion("a.onion"));
    set.insert(ip(1));
    assert_eq!(set.len(), 2);
    assert!(!set.is_empty());
    assert!(set.contains(&ip(1)));
    assert!(set.contains(&onion("a.onion")));
    assert!(!set.contains(&ip(2)));
    assert_eq!(set.addresses(), &vec![ip(1), onion("a.onion")]);
    set.extend(vec![ip(2), ip(1), ip(2)]);
    assert_eq!(set.len(), 3);
    assert_eq!(set.clone().addresses(), set.addresses());
}

#[test]
fn crawls_are_put_together() {
    let set = discover_libre_peers(vec![
        Some(vec![ip(1), ip(2)]),
        None,
        Some(vec![]),
        Some(vec![ip(2), onion("a.onion"), ip(3)]),
    ]);
    assert_eq!(set.len(), 4);
    for a in [ip(1), ip(2), ip(3), onion("a.onion")] {
        assert!(set.contains(&a));
    }
    assert!(discover_libre_peers(vec![None, None]).is_empty());
}

#[test]
fn nodes_are_remembered_for_five_minutes() {
    assert_eq!(NODE_CACHE_DURATION_NS, 5 * MINUTE);
    let mut set = PeerSet::new();
    set.insert(ip(1));
    let mut cache = PeerCache::new();
    assert!(cache.get_or_discover_libre_peers(0).is_none());
    cache.remember(&set, 10 * MINUTE);
    let used = cache.get_or_discover_libre_peers(15 * MINUTE).unwrap();
    assert_eq!(used.addresses(), set.addresses());
    assert!(cache.get_or_discover_libre_peers(15 * MINUTE + 1).is_none());
    assert!(cache.get_or_discover_libre_peers(u128::MAX).is_none());
    assert!(cache.get_or_discover_libre_peers(0).is_some());
    cache.remember(&PeerSet::new(), 20 * MINUTE);
    assert!(cache.get_or_discover_libre_peers(20 * MINUTE).unwrap().is_empty());
    cache.clear();
    assert!(cache.get_or_discover_libre_peers(20 * MINUTE).is_none());
}

#[test]
fn the_age_of_remembered_nodes() {
    let cached = CachedPeers::new(PeerSet::new(), 7);
    assert_eq!(cached.last_updated_ns, 7);
    assert!(!cached.is_expired(0));
    assert!(!cached.is_expired(7 + 300_000_000_000));
    assert!(cached.is_expired(8 + 300_000_000_000));
}

#[test]
fn names_to_look_up() {
    assert_eq!(SEED_LOOKUP_TIMEOUT_MS, 2_000);
    let names = seed_lookups();
    assert_eq!(names.len(), 10);
    assert_eq!(names[0], "dnsseed.bluematt.me:8333");
    assert_eq!(names[1], "dnsseed.bitcoin.dashjr-list-of-p2p-nodes.us:8333");
    assert_eq!(names[9], "seed.mainnet.achownodes.xyz:8333");
}

#[test]
fn lookups_are_put_together() {
    let lookups = vec![
        Some(vec![endpoint(3), endpoint(1)]),
        None,
        Some(vec![endpoint(1), endpoint(2)]),
    ];
    assert_eq!(
        gather_seed_addresses(&lookups),
        vec![endpoint(3), endpoint(1), endpoint(1), endpoint(2)]
    );
    let mut mixed = discover_seed_addresses(&lookups);
    mixed.sort_by_key(|e| format!("{:?}", e));
    assert_eq!(mixed, vec![endpoint(1), endpoint(1), endpoint(2), endpoint(3)]);
}

#[test]
fn seeds_come_in_an_order_of_chance() {
    let lookups = vec![Some((0..100).map(endpoint).collect::<Vec<Endpoint>>())];
    let straight = gather_seed_addresses(&lookups);
    assert!(
        discover_seed_addresses(&lookups) != straight
            || discover_seed_addresses(&lookups) != straight
    );
}

#[test]
fn what_was_discovered_is_remembered() {
    let mut cache = PeerCache::new();
    let found = cache.discovered(vec![Some(vec![ip(1)]), None, Some(vec![ip(1), ip(2)])], MINUTE);
    assert_eq!(found.len(), 2);
    let used = cache.get_or_discover_libre_peers(6 * MINUTE).unwrap();
    assert_eq!(used.addresses(), found.addresses());
    assert!(cache.get_or_discover_libre_peers(6 * MINUTE + 1).is_none());
}
