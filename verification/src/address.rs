//! Where nodes are reached, and which of the addresses that a node hands out belong
//! to libre-relay nodes.

use bitcoin::p2p::ServiceFlags;
use vstd::prelude::*;

use crate::onion::{onion_name, tor_v3_onion_from_pubkey};
use crate::services::{announces_libre_relay, is_libre_relay, libre_relay_is_told_by_one_bit};

verus! {

/// The port on which nodes listen.
pub const DEFAULT_PORT: u16 = 8333;

/// An IP address as the number that its bytes spell in network order.
#[derive(Clone, Copy, Debug, PartialEq, Eq, Hash, Structural)]
pub enum IpHost {
    V4(u32),
    V6(u128),
}

/// An IP address and a port.
#[derive(Clone, Copy, Debug, PartialEq, Eq, Hash, Structural)]
pub struct Endpoint {
    pub ip: IpHost,
    pub port: u16,
}

/// Where a node is reached: at an IP address, or as an onion service on the default
/// port.
#[derive(Debug, PartialEq, Eq, Hash)]
pub enum NetworkAddress {
    Ip(Endpoint),
    Onion(String),
}

/// A [`NetworkAddress`] with its name as characters.
pub enum PeerAddress {
    Ip(Endpoint),
    Onion(Seq<char>),
}

impl View for NetworkAddress {
    type V = PeerAddress;

    open spec fn view(&self) -> PeerAddress {
        match *self {
            NetworkAddress::Ip(endpoint) => PeerAddress::Ip(endpoint),
            NetworkAddress::Onion(name) => PeerAddress::Onion(name@),
        }
    }
}

/// The addresses of a list.
pub open spec fn peer_addresses(list: Seq<NetworkAddress>) -> Seq<PeerAddress> {
    list.map_values(|a: NetworkAddress| a@)
}

impl NetworkAddress {
    /// Tests whether two addresses are the same.
    pub fn same(&self, other: &NetworkAddress) -> (r: bool)
        ensures
            r == (self@ == other@),
    {
        match (self, other) {
            (NetworkAddress::Ip(a), NetworkAddress::Ip(b)) => *a == *b,
            (NetworkAddress::Onion(a), NetworkAddress::Onion(b)) => *a == *b,
            _ => false,
        }
    }

    /// The port on which the node is reached.
    pub fn port(&self) -> (p: u16)
        ensures
            p == match self@ {
                PeerAddress::Ip(endpoint) => endpoint.port,
                PeerAddress::Onion(_) => DEFAULT_PORT,
            },
    {
        match self {
            NetworkAddress::Ip(endpoint) => endpoint.port,
            NetworkAddress::Onion(_) => DEFAULT_PORT,
        }
    }
}

impl Clone for NetworkAddress {
    fn clone(&self) -> (r: Self)
        ensures
            r@ == self@,
    {
        match self {
            NetworkAddress::Ip(endpoint) => NetworkAddress::Ip(*endpoint),
            NetworkAddress::Onion(name) => NetworkAddress::Onion(name.clone()),
        }
    }
}

/// An address in the form of the `addr` and `version` messages: eight words, of which
/// an IPv4 address fills the last two.
#[derive(Clone, Copy, Debug, PartialEq, Eq)]
pub struct AddrEntry {
    pub services: u64,
    pub address: [u16; 8],
    pub port: u16,
}

impl AddrEntry {
    /// An entry with these parts.
    pub fn new(services: u64, address: [u16; 8], port: u16) -> (r: Self)
        ensures
            r == (AddrEntry { services, address, port }),
    {
        AddrEntry { services, address, port }
    }
}

/// A host in the form of the `addrv2` message.
#[derive(Clone, Copy, Debug, PartialEq, Eq)]
pub enum AddrV2Host {
    Ipv4(u32),
    Ipv6(u128),
    /// A version 3 onion service, by its public key.
    TorV3([u8; 32]),
    /// A network that is not reached from here.
    Other,
}

/// An address in the form of the `addrv2` message.
#[derive(Clone, Copy, Debug, PartialEq, Eq)]
pub struct AddrV2Entry {
    pub services: u64,
    pub host: AddrV2Host,
    pub port: u16,
}

impl AddrV2Entry {
    /// An entry with these parts.
    pub fn new(services: u64, host: AddrV2Host, port: u16) -> (r: Self)
        ensures
            r == (AddrV2Entry { services, host, port }),
    {
        AddrV2Entry { services, host, port }
    }
}

/// Whether eight words carry a version 2 onion service.
pub open spec fn is_onion_cat(words: Seq<u16>) -> bool {
    words[0] == 0xFD87 && words[1] == 0xD87E && words[2] == 0xEB43
}

/// Whether eight words embed an IPv4 address: all but the last two are zero, where
/// the sixth may also be `0xFFFF`.
pub open spec fn embeds_ipv4(words: Seq<u16>) -> bool {
    &&& words[0] == 0 && words[1] == 0 && words[2] == 0 && words[3] == 0 && words[4] == 0
    &&& words[5] == 0 || words[5] == 0xFFFF
}

/// The number that words of sixteen bits spell, the first being the most significant.
pub open spec fn words_value(words: Seq<u16>) -> nat
    decreases words.len(),
{
    if words.len() == 0 {
        0
    } else {
        0x1_0000 * words_value(words.drop_last()) + words.last() as nat
    }
}

/// The IP address that eight words carry, if they carry one.
pub open spec fn ip_of_words(words: Seq<u16>) -> Option<IpHost> {
    if is_onion_cat(words) {
        None
    } else if embeds_ipv4(words) {
        Some(IpHost::V4(words_value(words.subrange(6, 8)) as u32))
    } else {
        Some(IpHost::V6(words_value(words) as u128))
    }
}

/// `bitcoin::p2p::Address::socket_addr`: no address for the words of an onion service;
/// otherwise an IPv4 address, and whether it is one, where the words embed one, and the
/// IPv6 address of the same words where they do not. The result is handed over as the
/// eight words that `bitcoin::p2p::Address::new` gives it: those of an IPv4 address end
/// in its two words.
#[verifier::external_body]
fn socket_addr(address: &[u16; 8], port: u16) -> (r: Option<(bool, [u16; 8], u16)>)
    ensures
        r is None <==> is_onion_cat(address@),
        r matches Some((is_ipv4, words, p)) ==> {
            &&& is_ipv4 == embeds_ipv4(address@)
            &&& is_ipv4 ==> words@.subrange(6, 8) == address@.subrange(6, 8)
            &&& !is_ipv4 ==> words@ == address@
            &&& p == port
        },
{
    let services = ServiceFlags::NONE;
    match (bitcoin::p2p::Address { services, address: *address, port }).socket_addr() {
        Ok(s) => Some((s.is_ipv4(), bitcoin::p2p::Address::new(&s, services).address, s.port())),
        Err(_) => None,
    }
}

/// Two words as one number.
fn two_words(high: u16, low: u16) -> (n: u32)
    ensures
        n == words_value(seq![high, low]),
{
    proof {
        reveal_with_fuel(words_value, 3);
        assert(seq![high, low].drop_last() =~= seq![high]);
        assert(seq![high].drop_last() =~= Seq::<u16>::empty());
    }
    0x1_0000u32 * high as u32 + low as u32
}

/// Eight words as one number.
fn eight_words(words: &[u16; 8]) -> (n: u128)
    ensures
        n == words_value(words@),
{
    let mut n: u128 = 0;
    let mut i: usize = 0;
    let ghost mut bound: int = 1;
    proof {
        assert(words@.subrange(0, 0) =~= Seq::<u16>::empty());
    }
    while i < 8
        invariant
            i <= 8,
            n == words_value(words@.subrange(0, i as int)),
            n < bound,
            i == 0 ==> bound == 0x1,
            i == 1 ==> bound == 0x1_0000,
            i == 2 ==> bound == 0x1_0000_0000,
            i == 3 ==> bound == 0x1_0000_0000_0000,
            i == 4 ==> bound == 0x1_0000_0000_0000_0000,
            i == 5 ==> bound == 0x1_0000_0000_0000_0000_0000,
            i == 6 ==> bound == 0x1_0000_0000_0000_0000_0000_0000,
            i == 7 ==> bound == 0x1_0000_0000_0000_0000_0000_0000_0000,
            i == 8 ==> bound == 0x1_0000_0000_0000_0000_0000_0000_0000_0000,
        decreases 8 - i,
    {
        proof {
            assert(words@.subrange(0, i + 1).drop_last() =~= words@.subrange(0, i as int));
            bound = 0x1_0000 * bound;
        }
        n = 0x1_0000u128 * n + words[i] as u128;
        i = i + 1;
    }
    proof {
        assert(words@.subrange(0, 8) =~= words@);
    }
    n
}

/// The libre-relay node that an entry of an `addr` message names, if it names one that
/// can be reached.
pub open spec fn libre_peer(entry: AddrEntry) -> Option<PeerAddress> {
    if !announces_libre_relay(entry.services) {
        None
    } else {
        match ip_of_words(entry.address@) {
            Some(ip) => Some(PeerAddress::Ip(Endpoint { ip, port: entry.port })),
            None => None,
        }
    }
}

/// Reads an entry of an `addr` message.
pub fn read_addr_entry(entry: &AddrEntry) -> (r: Option<NetworkAddress>)
    ensures
        match r {
            Some(a) => libre_peer(*entry) == Some(a@),
            None => libre_peer(*entry) is None,
        },
{
    if !is_libre_relay(entry.services) {
        return None;
    }
    match socket_addr(&entry.address, entry.port) {
        Some((true, words, port)) => {
            proof {
                assert(words@.subrange(6, 8) =~= seq![words@[6], words@[7]]);
            }
            let ip = IpHost::V4(two_words(words[6], words[7]));
            Some(NetworkAddress::Ip(Endpoint { ip, port }))
        },
        Some((false, words, port)) => {
            let ip = IpHost::V6(eight_words(&words));
            Some(NetworkAddress::Ip(Endpoint { ip, port }))
        },
        None => None,
    }
}

/// The libre-relay node that an entry of an `addrv2` message names, if it names one that
/// can be reached. An onion service is reached on the default port, whatever port the
/// entry gives.
pub open spec fn libre_peer_v2(entry: AddrV2Entry) -> Option<PeerAddress> {
    if !announces_libre_relay(entry.services) {
        None
    } else {
        match entry.host {
            AddrV2Host::Ipv4(ip) => Some(
                PeerAddress::Ip(Endpoint { ip: IpHost::V4(ip), port: entry.port }),
            ),
            AddrV2Host::Ipv6(ip) => Some(
                PeerAddress::Ip(Endpoint { ip: IpHost::V6(ip), port: entry.port }),
            ),
            AddrV2Host::TorV3(key) => Some(PeerAddress::Onion(onion_name(key@))),
            AddrV2Host::Other => None,
        }
    }
}

/// Reads an entry of an `addrv2` message.
pub fn read_addr_v2_entry(entry: &AddrV2Entry) -> (r: Option<NetworkAddress>)
    ensures
        match r {
            Some(a) => libre_peer_v2(*entry) == Some(a@),
            None => libre_peer_v2(*entry) is None,
        },
{
    if !is_libre_relay(entry.services) {
        return None;
    }
    match entry.host {
        AddrV2Host::Ipv4(ip) => Some(
            NetworkAddress::Ip(Endpoint { ip: IpHost::V4(ip), port: entry.port }),
        ),
        AddrV2Host::Ipv6(ip) => Some(
            NetworkAddress::Ip(Endpoint { ip: IpHost::V6(ip), port: entry.port }),
        ),
        AddrV2Host::TorV3(key) => Some(NetworkAddress::Onion(tor_v3_onion_from_pubkey(&key))),
        AddrV2Host::Other => None,
    }
}

/// The libre-relay nodes of a list from an `addr` message, in the order of the list.
pub open spec fn libre_peers(list: Seq<AddrEntry>) -> Seq<PeerAddress>
    decreases list.len(),
{
    if list.len() == 0 {
        Seq::empty()
    } else {
        match libre_peer(list.last()) {
            Some(a) => libre_peers(list.drop_last()).push(a),
            None => libre_peers(list.drop_last()),
        }
    }
}

/// Reads the list of an `addr` message.
pub fn read_addr_list(list: &Vec<AddrEntry>) -> (r: Vec<NetworkAddress>)
    ensures
        peer_addresses(r@) == libre_peers(list@),
{
    let mut found: Vec<NetworkAddress> = Vec::new();
    let mut i: usize = 0;
    assert(peer_addresses(found@) =~= libre_peers(list@.subrange(0, 0)));
    while i < list.len()
        invariant
            i <= list.len(),
            peer_addresses(found@) == libre_peers(list@.subrange(0, i as int)),
        decreases list.len() - i,
    {
        let ghost before = found@;
        assert(list@.subrange(0, i + 1).drop_last() =~= list@.subrange(0, i as int));
        match read_addr_entry(&list[i]) {
            Some(a) => {
                found.push(a);
                assert(peer_addresses(found@) =~= peer_addresses(before).push(a@));
            },
            None => {},
        }
        i = i + 1;
    }
    assert(list@.subrange(0, i as int) =~= list@);
    found
}

/// The libre-relay nodes of a list from an `addrv2` message, in the order of the list.
pub open spec fn libre_peers_v2(list: Seq<AddrV2Entry>) -> Seq<PeerAddress>
    decreases list.len(),
{
    if list.len() == 0 {
        Seq::empty()
    } else {
        match libre_peer_v2(list.last()) {
            Some(a) => libre_peers_v2(list.drop_last()).push(a),
            None => libre_peers_v2(list.drop_last()),
        }
    }
}

/// Reads the list of an `addrv2` message.
pub fn read_addr_v2_list(list: &Vec<AddrV2Entry>) -> (r: Vec<NetworkAddress>)
    ensures
        peer_addresses(r@) == libre_peers_v2(list@),
{
    let mut found: Vec<NetworkAddress> = Vec::new();
    let mut i: usize = 0;
    assert(peer_addresses(found@) =~= libre_peers_v2(list@.subrange(0, 0)));
    while i < list.len()
        invariant
            i <= list.len(),
            peer_addresses(found@) == libre_peers_v2(list@.subrange(0, i as int)),
        decreases list.len() - i,
    {
        let ghost before = found@;
        assert(list@.subrange(0, i + 1).drop_last() =~= list@.subrange(0, i as int));
        match read_addr_v2_entry(&list[i]) {
            Some(a) => {
                found.push(a);
                assert(peer_addresses(found@) =~= peer_addresses(before).push(a@));
            },
            None => {},
        }
        i = i + 1;
    }
    assert(list@.subrange(0, i as int) =~= list@);
    found
}

/// The nodes read from an `addr` list are those that its libre-relay entries name, and
/// no others.
pub proof fn libre_peers_are_the_libre_entries(list: Seq<AddrEntry>, a: PeerAddress)
    ensures
        libre_peers(list).contains(a) <==> exists|i: int|
            0 <= i < list.len() && libre_peer(#[trigger] list[i]) == Some(a),
    decreases list.len(),
{
    if list.len() > 0 {
        let init = list.drop_last();
        let found = libre_peers(init);
        libre_peers_are_the_libre_entries(init, a);
        if libre_peers(list).contains(a) {
            if found.contains(a) {
                let i = choose|i: int| 0 <= i < init.len() && libre_peer(#[trigger] init[i]) == Some(a);
                assert(list[i] == init[i]);
            } else {
                assert(libre_peer(list[list.len() - 1]) == Some(a));
            }
        }
        if exists|i: int| 0 <= i < list.len() && libre_peer(#[trigger] list[i]) == Some(a) {
            let i = choose|i: int| 0 <= i < list.len() && libre_peer(#[trigger] list[i]) == Some(a);
            if i < init.len() {
                assert(init[i] == list[i]);
                let k = choose|k: int| 0 <= k < found.len() && found[k] == a;
                assert(libre_peers(list)[k] == a);
            } else {
                assert(libre_peers(list)[found.len() as int] == a);
            }
        }
    }
}

/// The nodes read from an `addrv2` list are those that its libre-relay entries name, and
/// no others.
pub proof fn libre_peers_v2_are_the_libre_entries(list: Seq<AddrV2Entry>, a: PeerAddress)
    ensures
        libre_peers_v2(list).contains(a) <==> exists|i: int|
            0 <= i < list.len() && libre_peer_v2(#[trigger] list[i]) == Some(a),
    decreases list.len(),
{
    if list.len() > 0 {
        let init = list.drop_last();
        let found = libre_peers_v2(init);
        libre_peers_v2_are_the_libre_entries(init, a);
        if libre_peers_v2(list).contains(a) {
            if found.contains(a) {
                let i = choose|i: int| 0 <= i < init.len() && libre_peer_v2(#[trigger] init[i]) == Some(a);
                assert(list[i] == init[i]);
            } else {
                assert(libre_peer_v2(list[list.len() - 1]) == Some(a));
            }
        }
        if exists|i: int| 0 <= i < list.len() && libre_peer_v2(#[trigger] list[i]) == Some(a) {
            let i = choose|i: int| 0 <= i < list.len() && libre_peer_v2(#[trigger] list[i]) == Some(a);
            if i < init.len() {
                assert(init[i] == list[i]);
                let k = choose|k: int| 0 <= k < found.len() && found[k] == a;
                assert(libre_peers_v2(list)[k] == a);
            } else {
                assert(libre_peers_v2(list)[found.len() as int] == a);
            }
        }
    }
}

/// The number that eight words spell is the sum of each at its place, and the last two of them
/// spell a number of their own.
pub proof fn words_are_read_in_network_order(words: Seq<u16>)
    requires
        words.len() == 8,
    ensures
        words_value(words) == 0x1_0000_0000_0000_0000_0000_0000_0000 * words[0]
            + 0x1_0000_0000_0000_0000_0000_0000 * words[1] + 0x1_0000_0000_0000_0000_0000 * words[2]
            + 0x1_0000_0000_0000_0000 * words[3] + 0x1_0000_0000_0000 * words[4] + 0x1_0000_0000
            * words[5] + 0x1_0000 * words[6] + words[7],
        words_value(words.subrange(6, 8)) == 0x1_0000 * words[6] + words[7],
{
    reveal_with_fuel(words_value, 9);
    let w = words;
    assert(w.drop_last() =~= w.subrange(0, 7));
    assert(w.subrange(0, 7).drop_last() =~= w.subrange(0, 6));
    assert(w.subrange(0, 6).drop_last() =~= w.subrange(0, 5));
    assert(w.subrange(0, 5).drop_last() =~= w.subrange(0, 4));
    assert(w.subrange(0, 4).drop_last() =~= w.subrange(0, 3));
    assert(w.subrange(0, 3).drop_last() =~= w.subrange(0, 2));
    assert(w.subrange(0, 2).drop_last() =~= w.subrange(0, 1));
    assert(w.subrange(0, 1).drop_last() =~= w.subrange(0, 0));
    let two = w.subrange(6, 8);
    assert(two.drop_last() =~= seq![w[6]]);
    assert(seq![w[6]].drop_last() =~= Seq::<u16>::empty());
}

/// An entry of an `addr` message names a node exactly where it has the libre-relay bit and is not
/// an old onion address. The node is reached at the port of the entry: at the IPv4 address of the
/// last two words where those before are zero, but for the sixth, which may be `0xFFFF`, and
/// otherwise at the IPv6 address of all eight.
pub proof fn an_addr_entry_names_its_own_address(entry: AddrEntry)
    ensures
        ({
            let w = entry.address@;
            let libre = (entry.services / 0x2000_0000) % 2 == 1;
            let onion = w[0] == 0xFD87 && w[1] == 0xD87E && w[2] == 0xEB43;
            let v4 = w[0] == 0 && w[1] == 0 && w[2] == 0 && w[3] == 0 && w[4] == 0 && (w[5] == 0
                || w[5] == 0xFFFF);
            &&& libre_peer(entry) is Some <==> libre && !onion
            &&& libre_peer(entry) matches Some(a) ==> (a matches PeerAddress::Ip(e) && e.port
                == entry.port && (match e.ip {
                IpHost::V4(n) => v4 && n == 0x1_0000 * w[6] + w[7],
                IpHost::V6(n) => !v4 && n == 0x1_0000_0000_0000_0000_0000_0000_0000 * w[0]
                    + 0x1_0000_0000_0000_0000_0000_0000 * w[1] + 0x1_0000_0000_0000_0000_0000 * w[2]
                    + 0x1_0000_0000_0000_0000 * w[3] + 0x1_0000_0000_0000 * w[4] + 0x1_0000_0000
                    * w[5] + 0x1_0000 * w[6] + w[7],
            }))
        }),
{
    libre_relay_is_told_by_one_bit(entry.services, 0);
    words_are_read_in_network_order(entry.address@);
}

/// An entry of an `addrv2` message names a node exactly where it has the libre-relay bit and is on
/// a network that is reached: at the IP address and port of the entry, or as the onion service
/// with the key of the entry.
pub proof fn an_addrv2_entry_names_its_own_address(entry: AddrV2Entry)
    ensures
        ({
            let libre = (entry.services / 0x2000_0000) % 2 == 1;
            match entry.host {
                AddrV2Host::Ipv4(ip) => libre_peer_v2(entry) == if libre {
                    Some(PeerAddress::Ip(Endpoint { ip: IpHost::V4(ip), port: entry.port }))
                } else {
                    None
                },
                AddrV2Host::Ipv6(ip) => libre_peer_v2(entry) == if libre {
                    Some(PeerAddress::Ip(Endpoint { ip: IpHost::V6(ip), port: entry.port }))
                } else {
                    None
                },
                AddrV2Host::TorV3(key) => libre_peer_v2(entry) == if libre {
                    Some(PeerAddress::Onion(onion_name(key@)))
                } else {
                    None
                },
                AddrV2Host::Other => libre_peer_v2(entry) is None,
            }
        }),
{
    libre_relay_is_told_by_one_bit(entry.services, 0);
}

/// A list is read entry by entry: what two lists give, one after the other, is what they give as
/// one list, and a list of one entry gives the node of that entry, if it names one.
pub proof fn addr_lists_are_read_entry_by_entry(
    list1: Seq<AddrEntry>,
    list2: Seq<AddrEntry>,
    entry: AddrEntry,
)
    ensures
        libre_peers(list1 + list2) == libre_peers(list1) + libre_peers(list2),
        libre_peers(seq![entry]) == match libre_peer(entry) {
            Some(a) => seq![a],
            None => Seq::empty(),
        },
    decreases list2.len(),
{
    reveal_with_fuel(libre_peers, 2);
    assert(seq![entry].drop_last() =~= Seq::<AddrEntry>::empty());
    if list2.len() == 0 {
        assert(list1 + list2 =~= list1);
    } else {
        addr_lists_are_read_entry_by_entry(list1, list2.drop_last(), entry);
        assert((list1 + list2).drop_last() =~= list1 + list2.drop_last());
        assert((list1 + list2).last() == list2.last());
    }
    assert(libre_peers(list1 + list2) =~= libre_peers(list1) + libre_peers(list2));
}

/// A list is read entry by entry: what two lists give, one after the other, is what they give as
/// one list, and a list of one entry gives the node of that entry, if it names one.
pub proof fn addrv2_lists_are_read_entry_by_entry(
    list1: Seq<AddrV2Entry>,
    list2: Seq<AddrV2Entry>,
    entry: AddrV2Entry,
)
    ensures
        libre_peers_v2(list1 + list2) == libre_peers_v2(list1) + libre_peers_v2(list2),
        libre_peers_v2(seq![entry]) == match libre_peer_v2(entry) {
            Some(a) => seq![a],
            None => Seq::empty(),
        },
    decreases list2.len(),
{
    reveal_with_fuel(libre_peers_v2, 2);
    assert(seq![entry].drop_last() =~= Seq::<AddrV2Entry>::empty());
    if list2.len() == 0 {
        assert(list1 + list2 =~= list1);
    } else {
        addrv2_lists_are_read_entry_by_entry(list1, list2.drop_last(), entry);
        assert((list1 + list2).drop_last() =~= list1 + list2.drop_last());
        assert((list1 + list2).last() == list2.last());
    }
    assert(libre_peers_v2(list1 + list2) =~= libre_peers_v2(list1) + libre_peers_v2(list2));
}

/// Addresses are told apart by all that they hold, and a list of them keeps each at its place.
pub proof fn addresses_keep_what_they_hold(
    endpoint: Endpoint,
    name: String,
    list: Seq<NetworkAddress>,
)
    ensures
        NetworkAddress::Ip(endpoint)@ == PeerAddress::Ip(endpoint),
        NetworkAddress::Onion(name)@ == PeerAddress::Onion(name@),
        peer_addresses(list).len() == list.len(),
        forall|i: int| 0 <= i < list.len() ==> #[trigger] peer_addresses(list)[i] == list[i]@,
{
}

} // verus!
