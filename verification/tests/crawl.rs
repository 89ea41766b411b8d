use tx_pigeon::address::{AddrEntry, AddrV2Entry, AddrV2Host, Endpoint, IpHost, NetworkAddress};
use tx_pigeon::crawl::{
    crawl_failure_text, crawl_step, found_peers, CrawlAction, CrawlEvent, CRAWL_CONNECT_TIMEOUT_MS,
};
use tx_pigeon::delivery::Failure;
use tx_pigeon::services::NODE_LIBRE_RELAY;
use tx_pigeon::wire::{CrawlMessage, Outgoing};

fn ip(n: u32) -> NetworkAddress {
    NetworkAddress::Ip(Endpoint { ip: IpHost::V4(n), port: 8333 })
}

fn list(n: u32) -> Vec<AddrV2Entry> {
    (0..n)
        .map(|i| AddrV2Entry {
            services: if i % 2 == 0 { NODE_LIBRE_RELAY } else { 1 },
            host: AddrV2Host::Ipv4(i),
            port: 8333,
        })
        .collect()
}

fn finish(event: CrawlEvent) -> Vec<NetworkAddress> {
    match crawl_step(&event) {
        CrawlAction::Finish(found) => found,
        other => panic!("{:?}", other),
    }
}

#[test]
fn the_handshake_of_a_crawl() {
    assert_eq!(CRAWL_CONNECT_TIMEOUT_MS, 2_000);
    assert!(matches!(crawl_step(&CrawlEvent::Connected), CrawlAction::Greet));
    assert!(matches!(
        crawl_step(&CrawlEvent::Sent),
        CrawlAction::Receive { timeout_ms: 12_000 }
    ));
    match crawl_step(&CrawlEvent::Received(CrawlMessage::Version)) {
        CrawlAction::Send(m) => {
            assert!(matches!(m.as_slice(), [Outgoing::SendAddrV2, Outgoing::Verack]));
        }
        other => panic!("{:?}", other),
    }
    match crawl_step(&CrawlEvent::Received(CrawlMessage::Verack)) {
        CrawlAction::Send(m) => assert!(matches!(m.as_slice(), [Outgoing::GetAddr])),
        other => panic!("{:?}", other),
    }
    assert!(matches!(
        crawl_step(&CrawlEvent::Received(CrawlMessage::Other)),
        CrawlAction::Receive { timeout_ms: 12_000 }
    ));
}

#[test]
fn a_crawl_that_fails() {
    assert!(matches!(
        crawl_step(&CrawlEvent::ConnectFailed),
        CrawlAction::Fail(Failure::ConnectFailed)
    ));
    assert!(matches!(
        crawl_step(&CrawlEvent::ConnectTimedOut),
        CrawlAction::Fail(Failure::ConnectTimedOut)
    ));
    assert!(matches!(
        crawl_step(&CrawlEvent::SendFailed),
        CrawlAction::Fail(Failure::SendFailed)
    ));
}

#[test]
fn a_silent_node_names_no_one() {
    assert_eq!(finish(CrawlEvent::ReadFailed), vec![]);
    assert_eq!(finish(CrawlEvent::ReadTimedOut), vec![]);
}

#[test]
fn the_libre_entries_are_reported() {
    let mut found = finish(CrawlEvent::Received(CrawlMessage::AddrV2(list(7))));
    found.sort_by_key(|a| format!("{:?}", a));
    assert_eq!(found, vec![ip(0), ip(2), ip(4), ip(6)]);
    let e = AddrEntry {
        services: NODE_LIBRE_RELAY,
        address: [0, 0, 0, 0, 0, 0xffff, 0, 9],
        port: 8333,
    };
    assert_eq!(finish(CrawlEvent::Received(CrawlMessage::Addr(vec![e]))), vec![ip(9)]);
}

#[test]
fn the_report_is_in_an_order_of_chance() {
    let straight = found_peers(&CrawlMessage::AddrV2(list(200))).unwrap();
    assert_eq!(straight.len(), 100);
    let event = || CrawlEvent::Received(CrawlMessage::AddrV2(list(200)));
    assert!(finish(event()) != straight || finish(event()) != straight);
}

#[test]
fn only_lists_name_nodes() {
    assert_eq!(found_peers(&CrawlMessage::Version), None);
    assert_eq!(found_peers(&CrawlMessage::Verack), None);
    assert_eq!(found_peers(&CrawlMessage::Other), None);
    assert_eq!(found_peers(&CrawlMessage::Addr(vec![])), Some(vec![]));
}

#[test]
fn words_for_a_crawl_that_failed() {
    assert_eq!(
        crawl_failure_text(Failure::ConnectTimedOut, "[::1]:8333", "x"),
        "Timeout connecting to [::1]:8333"
    );
    assert_eq!(
        crawl_failure_text(Failure::ConnectFailed, "[::1]:8333", "connection refused"),
        "connection refused"
    );
    assert_eq!(crawl_failure_text(Failure::SendFailed, "", "broken pipe"), "broken pipe");
}
