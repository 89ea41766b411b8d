use tx_pigeon::address::{
    read_addr_entry, read_addr_list, read_addr_v2_entry, read_addr_v2_list, AddrEntry, AddrV2Entry,
    AddrV2Host, Endpoint, IpHost, NetworkAddress,
};
use tx_pigeon::services::{is_libre_relay, NODE_LIBRE_RELAY, NODE_NETWORK, NODE_WITNESS};

fn entry(services: u64, address: [u16; 8]) -> AddrEntry {
    AddrEntry { services, address, port: 8444 }
}

fn ip(host: IpHost, port: u16) -> NetworkAddress {
    NetworkAddress::Ip(Endpoint { ip: host, port })
}

#[test]
fn the_libre_relay_bit() {
    assert_eq!(NODE_NETWORK, 1 << 0);
    assert_eq!(NODE_WITNESS, 1 << 3);
    assert_eq!(NODE_LIBRE_RELAY, 1 << 29);
    assert!(is_libre_relay(NODE_LIBRE_RELAY));
    assert!(is_libre_relay(u64::MAX));
    assert!(!is_libre_relay(0));
    assert!(!is_libre_relay(u64::MAX - NODE_LIBRE_RELAY));
}

#[test]
fn a_mapped_ipv4_address() {
    let e = entry(NODE_LIBRE_RELAY, [0, 0, 0, 0, 0, 0xffff, 0x0102, 0x0304]);
    assert_eq!(read_addr_entry(&e), Some(ip(IpHost::V4(0x01020304), 8444)));
}

#[test]
fn a_compatible_ipv4_address() {
    let e = entry(NODE_LIBRE_RELAY, [0, 0, 0, 0, 0, 0, 0, 1]);
    assert_eq!(read_addr_entry(&e), Some(ip(IpHost::V4(1), 8444)));
}

#[test]
fn an_ipv6_address() {
    let e = entry(NODE_LIBRE_RELAY, [0x2001, 0xdb8, 0, 0, 0, 0xffff, 0x0102, 0x0304]);
    assert_eq!(
        read_addr_entry(&e),
        Some(ip(IpHost::V6(0x20010db8000000000000ffff01020304), 8444))
    );
}

#[test]
fn an_old_onion_address_is_left_out() {
    let e = entry(NODE_LIBRE_RELAY, [0xfd87, 0xd87e, 0xeb43, 1, 2, 3, 4, 5]);
    assert_eq!(read_addr_entry(&e), None);
    let e = entry(NODE_LIBRE_RELAY, [0xfd87, 0xd87e, 0xeb44, 1, 2, 3, 4, 5]);
    assert!(read_addr_entry(&e).is_some());
}

#[test]
fn other_nodes_are_left_out() {
    let e = entry(NODE_NETWORK | NODE_WITNESS, [0, 0, 0, 0, 0, 0xffff, 0x0102, 0x0304]);
    assert_eq!(read_addr_entry(&e), None);
    let e = AddrV2Entry { services: NODE_NETWORK, host: AddrV2Host::Ipv4(1), port: 1 };
    assert_eq!(read_addr_v2_entry(&e), None);
}

#[test]
fn each_kind_of_host_of_the_second_form() {
    let read = |host| read_addr_v2_entry(&AddrV2Entry { services: NODE_LIBRE_RELAY, host, port: 99 });
    assert_eq!(read(AddrV2Host::Ipv4(0x7f000001)), Some(ip(IpHost::V4(0x7f000001), 99)));
    assert_eq!(read(AddrV2Host::Ipv6(1)), Some(ip(IpHost::V6(1), 99)));
    let name = "aaaaaaaaaaaaaaaaaaaaaaaaaaaaaaaaaaaaaaaaaaaaaaaaaaam2dqd.onion".to_string();
    assert_eq!(read(AddrV2Host::TorV3([0u8; 32])), Some(NetworkAddress::Onion(name)));
    assert_eq!(read(AddrV2Host::Other), None);
}

#[test]
fn ports() {
    assert_eq!(ip(IpHost::V4(1), 99).port(), 99);
    assert_eq!(NetworkAddress::Onion("x.onion".to_string()).port(), 8333);
}

#[test]
fn lists_keep_their_order() {
    let v4 = |n: u16| [0, 0, 0, 0, 0, 0xffff, 0, n];
    let list = vec![
        entry(NODE_LIBRE_RELAY, v4(1)),
        entry(NODE_NETWORK, v4(2)),
        entry(NODE_LIBRE_RELAY, [0xfd87, 0xd87e, 0xeb43, 0, 0, 0, 0, 0]),
        entry(NODE_LIBRE_RELAY | NODE_NETWORK, v4(3)),
    ];
    assert_eq!(
        read_addr_list(&list),
        vec![ip(IpHost::V4(1), 8444), ip(IpHost::V4(3), 8444)]
    );
    let v2 = |services: u64, n: u32| AddrV2Entry { services, host: AddrV2Host::Ipv4(n), port: 7 };
    let list = vec![v2(NODE_LIBRE_RELAY, 5), v2(0, 6), v2(NODE_LIBRE_RELAY, 4)];
    assert_eq!(read_addr_v2_list(&list), vec![ip(IpHost::V4(5), 7), ip(IpHost::V4(4), 7)]);
    assert_eq!(read_addr_v2_list(&vec![]), vec![]);
}

#[test]
fn addresses_are_compared_by_what_they_hold() {
    let a = ip(IpHost::V4(1), 99);
    assert!(a.same(&a.clone()));
    assert!(!a.same(&ip(IpHost::V4(1), 98)));
    assert!(!a.same(&ip(IpHost::V6(1), 99)));
    let o = NetworkAddress::Onion("x.onion".to_string());
    assert!(o.same(&o.clone()));
    assert!(!o.same(&a));
    assert!(!o.same(&NetworkAddress::Onion("y.onion".to_string())));
}
