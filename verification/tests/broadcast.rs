use tx_pigeon::address::{Endpoint, IpHost, NetworkAddress};
use tx_pigeon::broadcast::{
    broadcast_begin, broadcast_delivered, broadcast_discovered, broadcast_finish, broadcast_to_peers, clear_cache,
    delivery_reply, health_check, BroadcastRequest, BroadcastResponse, BroadcastStep,
};
use tx_pigeon::delivery::{Confirmation, DeliveryOutcome, Doubt, Failure};
use tx_pigeon::peers::{PeerCache, PeerSet};
use tx_pigeon::transaction::Transaction;

const GENESIS: &str = "01000000010000000000000000000000000000000000000000000000000000000000000000ffffffff4d04ffff001d0104455468652054696d65732030332f4a616e2f32303039204368616e63656c6c6f72206f6e206272696e6b206f66207365636f6e64206261696c6f757420666f722062616e6b73ffffffff0100f2052a01000000434104678afdb0fe5548271967f1a67130b7105cd6a828e03909a67962e0ea1f61deb649f6bc3f4cef38c4f35504e51ec112de5c384df7ba0b8d578a4c702b6bf11d5fac00000000";

const GENESIS_ID: &str = "4a5e1e4baab89f3a32518a88c31bc87f618f76673e2cc77ab2127b7afdeda33b";

fn request(tx: &str) -> BroadcastRequest {
    BroadcastRequest { tx: tx.to_string() }
}

fn one_peer() -> PeerSet {
    let mut set = PeerSet::new();
    set.insert(NetworkAddress::Ip(Endpoint { ip: IpHost::V4(1), port: 8333 }));
    set
}

fn refusal(step: BroadcastStep) -> (u16, String) {
    match step {
        BroadcastStep::Refuse(r) => (r.status, r.body.error),
        other => panic!("{:?}", other),
    }
}

fn reply(step: BroadcastStep) -> BroadcastResponse {
    match step {
        BroadcastStep::Reply(r) => r,
        other => panic!("{:?}", other),
    }
}

#[test]
fn a_text_that_is_no_transaction() {
    let mut cache = PeerCache::new();
    cache.remember(&one_peer(), 0);
    assert_eq!(
        refusal(broadcast_begin(&request("invalid_hex_string"), &cache, 0)),
        (400, "Invalid hex string: Invalid character 'i' at position 0".to_string())
    );
    let (status, error) = refusal(broadcast_begin(&request("00"), &PeerCache::new(), 0));
    assert_eq!(status, 400);
    assert!(error.starts_with("Invalid transaction format: "));
}

#[test]
fn nodes_are_looked_for_where_none_are_remembered() {
    match broadcast_begin(&request(GENESIS), &PeerCache::new(), 0) {
        BroadcastStep::Discover(tx) => assert_eq!(tx.txid_text(), GENESIS_ID),
        other => panic!("{:?}", other),
    }
}

#[test]
fn remembered_nodes_get_the_transaction() {
    let mut cache = PeerCache::new();
    cache.remember(&one_peer(), 5);
    match broadcast_begin(&request(GENESIS), &cache, 6) {
        BroadcastStep::Deliver { tx, peers } => {
            assert_eq!(tx.bytes(), &hex::decode(GENESIS).unwrap());
            assert_eq!(peers.addresses(), one_peer().addresses());
        }
        other => panic!("{:?}", other),
    }
}

#[test]
fn no_nodes_at_all() {
    let expected = BroadcastResponse {
        success: false,
        message: "No libre relay nodes found".to_string(),
        txid: GENESIS_ID.to_string(),
        success_count: 0,
        total_peers: 0,
    };
    let mut cache = PeerCache::new();
    cache.remember(&PeerSet::new(), 5);
    assert_eq!(reply(broadcast_begin(&request(GENESIS), &cache, 6)), expected);
    let tx = Transaction::from_hex(GENESIS).unwrap();
    assert_eq!(reply(broadcast_discovered(tx, Ok(PeerSet::new()))), expected);
}

#[test]
fn after_looking_for_nodes() {
    let tx = Transaction::from_hex(GENESIS).unwrap();
    match broadcast_discovered(tx.clone(), Ok(one_peer())) {
        BroadcastStep::Deliver { tx, peers } => {
            assert_eq!(tx.txid_text(), GENESIS_ID);
            assert_eq!(peers.len(), 1);
        }
        other => panic!("{:?}", other),
    }
    assert_eq!(
        refusal(broadcast_discovered(tx, Err("no network".to_string()))),
        (400, "no network".to_string())
    );
}

#[test]
fn only_confirmed_deliveries_count() {
    let outcomes = vec![
        Some(DeliveryOutcome::Confirmed(Confirmation::Returned)),
        None,
        Some(DeliveryOutcome::NotConfirmed(Doubt::NotFound)),
        Some(DeliveryOutcome::Failed(Failure::ConnectFailed)),
        Some(DeliveryOutcome::Confirmed(Confirmation::Announced)),
    ];
    assert_eq!(broadcast_to_peers(&outcomes), 2);
    assert_eq!(broadcast_to_peers(&vec![]), 0);
}

#[test]
fn the_answer_after_delivery() {
    let tx = Transaction::from_hex(GENESIS).unwrap();
    assert_eq!(
        reply(broadcast_finish(&tx, 12, Ok(5))),
        BroadcastResponse {
            success: true,
            message: "Transaction broadcasted to 5 libre relay nodes".to_string(),
            txid: GENESIS_ID.to_string(),
            success_count: 5,
            total_peers: 12,
        }
    );
    assert_eq!(
        delivery_reply("id".to_string(), 0, 3),
        BroadcastResponse {
            success: false,
            message: "No libre relay nodes accepted the transaction. TX may already be in a block or is invalid.".to_string(),
            txid: "id".to_string(),
            success_count: 0,
            total_peers: 3,
        }
    );
}

#[test]
fn a_delivery_that_went_wrong() {
    let tx = Transaction::from_hex(GENESIS).unwrap();
    assert_eq!(
        refusal(broadcast_finish(&tx, 3, Err("semaphore closed".to_string()))),
        (500, "Failed to broadcast transaction: semaphore closed".to_string())
    );
}

#[test]
fn the_state_of_the_service() {
    let r = health_check("1.2.3");
    assert_eq!(r.status, "healthy");
    assert_eq!(r.service, "tx-pigeon");
    assert_eq!(r.version, "1.2.3");
}

#[test]
fn forgotten_nodes_are_looked_for_again() {
    let mut cache = PeerCache::new();
    cache.remember(&one_peer(), 0);
    let r = clear_cache(&mut cache);
    assert!(r.success);
    assert_eq!(r.message, "Peer cache cleared successfully");
    assert!(matches!(
        broadcast_begin(&request(GENESIS), &cache, 0),
        BroadcastStep::Discover(_)
    ));
}

#[test]
fn the_answer_counts_nodes_and_confirmations() {
    let tx = Transaction::from_hex(GENESIS).unwrap();
    let confirmed = Some(DeliveryOutcome::Confirmed(Confirmation::Returned));
    let r = reply(broadcast_delivered(&tx, &one_peer(), Ok(vec![confirmed])));
    assert_eq!((r.success, r.success_count, r.total_peers), (true, 1, 1));
    assert_eq!(r.txid, GENESIS_ID);
    assert_eq!(r.message, "Transaction broadcasted to 1 libre relay nodes");
    let r = reply(broadcast_delivered(&tx, &one_peer(), Ok(vec![None])));
    assert_eq!((r.success, r.success_count, r.total_peers), (false, 0, 1));
    assert_eq!(
        refusal(broadcast_delivered(&tx, &one_peer(), Err("gone".to_string()))),
        (500, "Failed to broadcast transaction: gone".to_string())
    );
}

#[test]
fn the_case_of_a_request_does_not_matter() {
    match broadcast_begin(&request(&GENESIS.to_uppercase()), &PeerCache::new(), 0) {
        BroadcastStep::Discover(tx) => assert_eq!(tx.txid_text(), GENESIS_ID),
        other => panic!("{:?}", other),
    }
}
