//! Asking a node for the addresses of others, and keeping those of libre-relay nodes.
//!
//! [`crawl_step`] decides what to do on each event. Whoever holds the connection carries
//! the action out and reports what came of it as the next event.

use vstd::prelude::*;

use crate::address::{
    an_addrv2_entry_names_its_own_address, libre_peer, libre_peer_v2, libre_peers, libre_peers_are_the_libre_entries, libre_peers_v2,
    libre_peers_v2_are_the_libre_entries, peer_addresses, read_addr_list, read_addr_v2_list,
    AddrEntry, AddrV2Entry, AddrV2Host, Endpoint, IpHost, NetworkAddress, PeerAddress,
};
use crate::delivery::{Failure, CONNECTION_TIMEOUT_MS};
use crate::onion::onion_name;
use crate::shuffle::{images_have_the_same_items, shuffle};
use crate::wire::{CrawlMessage, CrawlView, Outgoing, OutgoingView};

verus! {

/// How long to wait for a connection to a node that is asked for addresses.
pub const CRAWL_CONNECT_TIMEOUT_MS: u64 = 2_000;

/// What happened on the connection.
#[derive(Debug)]
pub enum CrawlEvent {
    Connected,
    ConnectFailed,
    ConnectTimedOut,
    /// All of what was to be sent is sent.
    Sent,
    SendFailed,
    Received(CrawlMessage),
    ReadFailed,
    ReadTimedOut,
}

/// A [`CrawlEvent`] with its message as sequences.
pub enum CrawlEventView {
    Connected,
    ConnectFailed,
    ConnectTimedOut,
    Sent,
    SendFailed,
    Received(CrawlView),
    ReadFailed,
    ReadTimedOut,
}

impl View for CrawlEvent {
    type V = CrawlEventView;

    open spec fn view(&self) -> CrawlEventView {
        match *self {
            CrawlEvent::Connected => CrawlEventView::Connected,
            CrawlEvent::ConnectFailed => CrawlEventView::ConnectFailed,
            CrawlEvent::ConnectTimedOut => CrawlEventView::ConnectTimedOut,
            CrawlEvent::Sent => CrawlEventView::Sent,
            CrawlEvent::SendFailed => CrawlEventView::SendFailed,
            CrawlEvent::Received(m) => CrawlEventView::Received(m@),
            CrawlEvent::ReadFailed => CrawlEventView::ReadFailed,
            CrawlEvent::ReadTimedOut => CrawlEventView::ReadTimedOut,
        }
    }
}

/// What to do on the connection.
#[derive(Debug)]
pub enum CrawlAction {
    /// Send the introduction.
    Greet,
    /// Send these messages, one after the other.
    Send(Vec<Outgoing>),
    /// Wait for a message, but no longer than this.
    Receive { timeout_ms: u64 },
    /// Close the connection, with the libre-relay nodes that were found.
    Finish(Vec<NetworkAddress>),
    /// Close the connection, with nothing learnt.
    Fail(Failure),
}

/// A [`CrawlAction`] with its contents as sequences.
pub enum CrawlActionView {
    Greet,
    Send(Seq<OutgoingView>),
    Receive { timeout_ms: u64 },
    Finish(Seq<PeerAddress>),
    Fail(Failure),
}

impl View for CrawlAction {
    type V = CrawlActionView;

    open spec fn view(&self) -> CrawlActionView {
        match *self {
            CrawlAction::Greet => CrawlActionView::Greet,
            CrawlAction::Send(list) => CrawlActionView::Send(list@.map_values(|m: Outgoing| m@)),
            CrawlAction::Receive { timeout_ms } => CrawlActionView::Receive { timeout_ms },
            CrawlAction::Finish(found) => CrawlActionView::Finish(peer_addresses(found@)),
            CrawlAction::Fail(failure) => CrawlActionView::Fail(failure),
        }
    }
}

/// The libre-relay nodes that a message names, if it is one that lists addresses.
pub open spec fn peers_in(message: CrawlView) -> Option<Seq<PeerAddress>> {
    match message {
        CrawlView::Addr(list) => Some(libre_peers(list)),
        CrawlView::AddrV2(list) => Some(libre_peers_v2(list)),
        _ => None,
    }
}

/// The messages that answer one of the node: an introduction is acknowledged, with the wish
/// for addresses of every kind, and its acknowledgement is answered by asking for addresses.
pub open spec fn crawl_answer(message: CrawlView) -> Seq<OutgoingView> {
    match message {
        CrawlView::Version => seq![OutgoingView::SendAddrV2, OutgoingView::Verack],
        CrawlView::Verack => seq![OutgoingView::GetAddr],
        _ => Seq::empty(),
    }
}

/// Whether `action` is what to do on `event`. The first list of addresses ends the crawl with
/// the libre-relay nodes in it, in any order; a node that falls silent before ends it with
/// none.
pub open spec fn crawl_allows(event: CrawlEventView, action: CrawlActionView) -> bool {
    match event {
        CrawlEventView::Connected => action == CrawlActionView::Greet,
        CrawlEventView::ConnectFailed => action == CrawlActionView::Fail(Failure::ConnectFailed),
        CrawlEventView::ConnectTimedOut => action == CrawlActionView::Fail(
            Failure::ConnectTimedOut,
        ),
        CrawlEventView::Sent => action == (CrawlActionView::Receive {
            timeout_ms: CONNECTION_TIMEOUT_MS,
        }),
        CrawlEventView::SendFailed => action == CrawlActionView::Fail(Failure::SendFailed),
        CrawlEventView::Received(message) => match peers_in(message) {
            Some(list) => action matches CrawlActionView::Finish(found) && found.to_multiset()
                == list.to_multiset(),
            None => if crawl_answer(message).len() > 0 {
                action == CrawlActionView::Send(crawl_answer(message))
            } else {
                action == (CrawlActionView::Receive { timeout_ms: CONNECTION_TIMEOUT_MS })
            },
        },
        CrawlEventView::ReadFailed | CrawlEventView::ReadTimedOut => action
            == CrawlActionView::Finish(Seq::empty()),
    }
}

/// Reads the libre-relay nodes from a message that lists addresses, in the order of the list.
pub fn found_peers(message: &CrawlMessage) -> (r: Option<Vec<NetworkAddress>>)
    ensures
        match r {
            Some(found) => peers_in(message@) == Some(peer_addresses(found@)),
            None => peers_in(message@) is None,
        },
{
    match message {
        CrawlMessage::Addr(list) => Some(read_addr_list(list)),
        CrawlMessage::AddrV2(list) => Some(read_addr_v2_list(list)),
        _ => None,
    }
}

/// Ends a crawl with the nodes that were found, in an order of chance.
fn finish(found: Vec<NetworkAddress>) -> (action: CrawlAction)
    ensures
        action@ matches CrawlActionView::Finish(list) && list.to_multiset() == peer_addresses(
            found@,
        ).to_multiset(),
{
    let mut shuffled = found;
    shuffle(&mut shuffled);
    proof {
        images_have_the_same_items(shuffled@, found@, |a: NetworkAddress| a@);
    }
    CrawlAction::Finish(shuffled)
}

/// Decides how a crawl goes on after an event.
///
/// The first action of a crawl is to connect to the node, and its first event says what came
/// of that.
pub fn crawl_step(event: &CrawlEvent) -> (action: CrawlAction)
    ensures
        crawl_allows(event@, action@),
{
    match event {
        CrawlEvent::Connected => CrawlAction::Greet,
        CrawlEvent::ConnectFailed => CrawlAction::Fail(Failure::ConnectFailed),
        CrawlEvent::ConnectTimedOut => CrawlAction::Fail(Failure::ConnectTimedOut),
        CrawlEvent::Sent => CrawlAction::Receive { timeout_ms: CONNECTION_TIMEOUT_MS },
        CrawlEvent::SendFailed => CrawlAction::Fail(Failure::SendFailed),
        CrawlEvent::Received(message) => {
            if let Some(found) = found_peers(message) {
                return finish(found);
            }
            let mut answer: Vec<Outgoing> = Vec::new();
            match message {
                CrawlMessage::Version => {
                    answer.push(Outgoing::SendAddrV2);
                    answer.push(Outgoing::Verack);
                    assert(answer@.map_values(|m: Outgoing| m@) =~= crawl_answer(message@));
                    CrawlAction::Send(answer)
                },
                CrawlMessage::Verack => {
                    answer.push(Outgoing::GetAddr);
                    assert(answer@.map_values(|m: Outgoing| m@) =~= crawl_answer(message@));
                    CrawlAction::Send(answer)
                },
                _ => CrawlAction::Receive { timeout_ms: CONNECTION_TIMEOUT_MS },
            }
        },
        CrawlEvent::ReadFailed | CrawlEvent::ReadTimedOut => {
            let none: Vec<NetworkAddress> = Vec::new();
            assert(peer_addresses(none@) =~= Seq::empty());
            CrawlAction::Finish(none)
        },
    }
}

/// Why nothing was learnt from the node at `seed`, in words. What the network said of it,
/// `detail`, is passed on as it is.
pub open spec fn crawl_failure_words(
    failure: Failure,
    seed: Seq<char>,
    detail: Seq<char>,
) -> Seq<char> {
    match failure {
        Failure::ConnectTimedOut => "Timeout connecting to "@ + seed,
        _ => detail,
    }
}

/// Writes why nothing was learnt from a node.
pub fn crawl_failure_text(failure: Failure, seed: &str, detail: &str) -> (s: String)
    ensures
        s@ == crawl_failure_words(failure, seed@, detail@),
{
    match failure {
        Failure::ConnectTimedOut => {
            let mut s = "Timeout connecting to ".to_owned();
            s.append(seed);
            s
        },
        _ => detail.to_owned(),
    }
}

/// A crawl fails exactly where the connection cannot be made or is not made in time, or where
/// something cannot be sent. No failure to read makes it fail.
pub proof fn a_crawl_fails_where_it_is_broken_off(event: CrawlEventView, action: CrawlActionView)
    requires
        crawl_allows(event, action),
    ensures
        action is Fail <==> event is ConnectFailed || event is ConnectTimedOut || event
            is SendFailed,
        event is ConnectFailed ==> action == CrawlActionView::Fail(Failure::ConnectFailed),
        event is ConnectTimedOut ==> action == CrawlActionView::Fail(Failure::ConnectTimedOut),
        event is SendFailed ==> action == CrawlActionView::Fail(Failure::SendFailed),
{
}

/// A crawl that ends with an `addr` message reports the nodes that the libre-relay entries of
/// the message name, and no others.
pub proof fn a_crawl_reports_the_libre_entries(
    list: Seq<AddrEntry>,
    found: Seq<PeerAddress>,
    a: PeerAddress,
)
    requires
        crawl_allows(
            CrawlEventView::Received(CrawlView::Addr(list)),
            CrawlActionView::Finish(found),
        ),
    ensures
        found.contains(a) <==> exists|i: int|
            0 <= i < list.len() && libre_peer(#[trigger] list[i]) == Some(a),
{
    broadcast use vstd::seq_lib::group_to_multiset_ensures;

    libre_peers_are_the_libre_entries(list, a);
    assert(found.contains(a) <==> found.to_multiset().count(a) > 0);
    assert(libre_peers(list).contains(a) <==> libre_peers(list).to_multiset().count(a) > 0);
}

/// A crawl that ends with an `addrv2` message reports the nodes that the libre-relay entries of
/// the message name, and no others.
pub proof fn a_crawl_reports_the_libre_entries_v2(
    list: Seq<AddrV2Entry>,
    found: Seq<PeerAddress>,
    a: PeerAddress,
)
    requires
        crawl_allows(
            CrawlEventView::Received(CrawlView::AddrV2(list)),
            CrawlActionView::Finish(found),
        ),
    ensures
        found.contains(a) <==> exists|i: int|
            0 <= i < list.len() && libre_peer_v2(#[trigger] list[i]) == Some(a),
{
    broadcast use vstd::seq_lib::group_to_multiset_ensures;

    libre_peers_v2_are_the_libre_entries(list, a);
    assert(found.contains(a) <==> found.to_multiset().count(a) > 0);
    assert(libre_peers_v2(list).contains(a) <==> libre_peers_v2(list).to_multiset().count(a) > 0);
}

/// The first list of addresses ends a crawl, whatever its length, and it ends with the nodes that
/// the list gives: as many of each as there are entries for it.
pub proof fn any_list_of_addresses_ends_a_crawl(
    list: Seq<AddrEntry>,
    list_v2: Seq<AddrV2Entry>,
    action: CrawlActionView,
)
    ensures
        crawl_allows(CrawlEventView::Received(CrawlView::Addr(list)), action) ==> (
        action matches CrawlActionView::Finish(found) && found.to_multiset() == libre_peers(
            list,
        ).to_multiset() && found.len() == libre_peers(list).len()),
        crawl_allows(CrawlEventView::Received(CrawlView::AddrV2(list_v2)), action) ==> (
        action matches CrawlActionView::Finish(found) && found.to_multiset() == libre_peers_v2(
            list_v2,
        ).to_multiset() && found.len() == libre_peers_v2(list_v2).len()),
{
    broadcast use vstd::seq_lib::group_to_multiset_ensures;

    if let CrawlActionView::Finish(found) = action {
        assert(found.to_multiset().len() == found.len());
        assert(libre_peers(list).to_multiset().len() == libre_peers(list).len());
        assert(libre_peers_v2(list_v2).to_multiset().len() == libre_peers_v2(list_v2).len());
    }
}

/// An entry of any list of an `addrv2` message that has bit 29 of its services and an IPv4 host is
/// reported, and so is one with an IPv6 host or the key of an onion service. Nothing is reported
/// for which there is no such entry.
pub proof fn a_crawl_reports_what_the_list_names_v2(
    list: Seq<AddrV2Entry>,
    action: CrawlActionView,
    a: PeerAddress,
)
    requires
        crawl_allows(CrawlEventView::Received(CrawlView::AddrV2(list)), action),
    ensures
        action matches CrawlActionView::Finish(found) && (found.contains(a) <==> exists|i: int|
            0 <= i < list.len() && ((#[trigger] list[i]).services / 0x2000_0000) % 2 == 1
                && match list[i].host {
                AddrV2Host::Ipv4(ip) => a == PeerAddress::Ip(
                    Endpoint { ip: IpHost::V4(ip), port: list[i].port },
                ),
                AddrV2Host::Ipv6(ip) => a == PeerAddress::Ip(
                    Endpoint { ip: IpHost::V6(ip), port: list[i].port },
                ),
                AddrV2Host::TorV3(key) => a == PeerAddress::Onion(onion_name(key@)),
                AddrV2Host::Other => false,
            }),
{
    any_list_of_addresses_ends_a_crawl(Seq::empty(), list, action);
    if let CrawlActionView::Finish(found) = action {
        a_crawl_reports_the_libre_entries_v2(list, found, a);
        assert forall|i: int| 0 <= i < list.len() implies (libre_peer_v2(#[trigger] list[i]) == Some(
            a,
        ) <==> (list[i].services / 0x2000_0000) % 2 == 1 && match list[i].host {
            AddrV2Host::Ipv4(ip) => a == PeerAddress::Ip(
                Endpoint { ip: IpHost::V4(ip), port: list[i].port },
            ),
            AddrV2Host::Ipv6(ip) => a == PeerAddress::Ip(
                Endpoint { ip: IpHost::V6(ip), port: list[i].port },
            ),
            AddrV2Host::TorV3(key) => a == PeerAddress::Onion(onion_name(key@)),
            AddrV2Host::Other => false,
        }) by {
            an_addrv2_entry_names_its_own_address(list[i]);
        }
    }
}

/// What is done in a crawl on each event other than a list of addresses: the node is greeted,
/// its introduction is answered with the wish for addresses of every kind and an acknowledgement,
/// its acknowledgement with a request for addresses, and anything else with a wait of twelve
/// seconds. A node that falls silent ends the crawl with nothing found.
pub proof fn the_steps_of_a_crawl(action: CrawlActionView)
    ensures
        crawl_allows(CrawlEventView::Connected, action) <==> action == CrawlActionView::Greet,
        crawl_allows(CrawlEventView::Sent, action) <==> action == (CrawlActionView::Receive {
            timeout_ms: 12_000,
        }),
        crawl_allows(CrawlEventView::Received(CrawlView::Version), action) <==> action
            == CrawlActionView::Send(seq![OutgoingView::SendAddrV2, OutgoingView::Verack]),
        crawl_allows(CrawlEventView::Received(CrawlView::Verack), action) <==> action
            == CrawlActionView::Send(seq![OutgoingView::GetAddr]),
        crawl_allows(CrawlEventView::Received(CrawlView::Other), action) <==> action == (
        CrawlActionView::Receive { timeout_ms: 12_000 }),
        crawl_allows(CrawlEventView::ReadFailed, action) <==> action == CrawlActionView::Finish(
            Seq::empty(),
        ),
        crawl_allows(CrawlEventView::ReadTimedOut, action) <==> action == CrawlActionView::Finish(
            Seq::empty(),
        ),
{
}

/// A crawl that failed is told in words: a connection that did not come in time with the address
/// of the node, anything else as the network put it.
pub proof fn failed_crawls_are_told_in_words(
    failure: Failure,
    seed: Seq<char>,
    detail: Seq<char>,
)
    ensures
        crawl_failure_words(failure, seed, detail) == if failure == Failure::ConnectTimedOut {
            "Timeout connecting to "@ + seed
        } else {
            detail
        },
{
}

/// Events and actions keep all that they hold, lists of any length.
pub proof fn events_and_actions_of_a_crawl_keep_what_they_hold(
    list: Vec<AddrEntry>,
    list_v2: Vec<AddrV2Entry>,
    found: Vec<NetworkAddress>,
    sent: Vec<Outgoing>,
    i: int,
    timeout_ms: u64,
    failure: Failure,
    message: CrawlMessage,
)
    ensures
        CrawlEvent::Connected@ == CrawlEventView::Connected,
        CrawlEvent::ConnectFailed@ == CrawlEventView::ConnectFailed,
        CrawlEvent::ConnectTimedOut@ == CrawlEventView::ConnectTimedOut,
        CrawlEvent::Sent@ == CrawlEventView::Sent,
        CrawlEvent::SendFailed@ == CrawlEventView::SendFailed,
        CrawlEvent::ReadFailed@ == CrawlEventView::ReadFailed,
        CrawlEvent::ReadTimedOut@ == CrawlEventView::ReadTimedOut,
        CrawlEvent::Received(message)@ == CrawlEventView::Received(message@),
        CrawlAction::Greet@ == CrawlActionView::Greet,
        (CrawlAction::Receive { timeout_ms })@ == (CrawlActionView::Receive { timeout_ms }),
        CrawlAction::Fail(failure)@ == CrawlActionView::Fail(failure),
        CrawlAction::Send(sent)@ matches CrawlActionView::Send(messages) && messages.len()
            == sent@.len() && (0 <= i < sent@.len() ==> messages[i] == sent@[i]@),
        CrawlEvent::Received(CrawlMessage::Addr(list))@ == CrawlEventView::Received(
            CrawlView::Addr(list@),
        ),
        CrawlEvent::Received(CrawlMessage::AddrV2(list_v2))@ == CrawlEventView::Received(
            CrawlView::AddrV2(list_v2@),
        ),
        CrawlAction::Finish(found)@ matches CrawlActionView::Finish(peers) && peers.len()
            == found@.len() && (0 <= i < found@.len() ==> peers[i] == found@[i]@),
{
}

} // verus!
