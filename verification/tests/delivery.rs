use tx_pigeon::address::{Endpoint, IpHost, NetworkAddress};
use tx_pigeon::delivery::{
    another_attempt, complaint, deliver_poop_tx, delivery_step, failure_text, judge_reply,
    list_mentions, Confirmation, DeliveryAction, DeliveryEvent, DeliveryOutcome, DeliveryState,
    Doubt, Failure, CONNECTION_TIMEOUT_MS, MAX_ATTEMPTS, MAX_CONCURRENT_DELIVERIES,
    VERSION_TIMEOUT_MS,
};
use tx_pigeon::services::{NODE_LIBRE_RELAY, NODE_NETWORK};
use tx_pigeon::transaction::Transaction;
use tx_pigeon::wire::{DeliveryMessage, InvItem, Outgoing};

const GENESIS: &str = "01000000010000000000000000000000000000000000000000000000000000000000000000ffffffff4d04ffff001d0104455468652054696d65732030332f4a616e2f32303039204368616e63656c6c6f72206f6e206272696e6b206f66207365636f6e64206261696c6f757420666f722062616e6b73ffffffff0100f2052a01000000434104678afdb0fe5548271967f1a67130b7105cd6a828e03909a67962e0ea1f61deb649f6bc3f4cef38c4f35504e51ec112de5c384df7ba0b8d578a4c702b6bf11d5fac00000000";

fn genesis() -> Transaction {
    Transaction::from_hex(GENESIS).unwrap()
}

fn version(services: u64) -> DeliveryEvent {
    DeliveryEvent::Received(DeliveryMessage::Version {
        services,
        user_agent: "/node/".to_string(),
    })
}

fn closes(state: DeliveryState, event: DeliveryEvent) -> Option<DeliveryOutcome> {
    let (next, action) = delivery_step(state, &genesis(), &event, 0);
    match (next, action) {
        (DeliveryState::Closed(a), DeliveryAction::Finish(b)) if a == b => Some(a),
        (_, DeliveryAction::Finish(_)) => panic!("finished, but not closed"),
        (DeliveryState::Closed(_), _) => panic!("closed, but not finished"),
        _ => None,
    }
}

fn waits(state: DeliveryState, event: DeliveryEvent, now_ms: u64) -> (DeliveryState, u64) {
    match delivery_step(state, &genesis(), &event, now_ms) {
        (next, DeliveryAction::Receive { timeout_ms }) => (next, timeout_ms),
        (_, other) => panic!("{:?}", other),
    }
}

#[test]
fn limits() {
    assert_eq!(MAX_CONCURRENT_DELIVERIES, 100);
    assert_eq!(CONNECTION_TIMEOUT_MS, 12_000);
    assert_eq!(VERSION_TIMEOUT_MS, 5_000);
}

#[test]
fn a_confirmed_delivery_from_start_to_end() {
    let tx = genesis();
    let (s, a) = delivery_step(DeliveryState::Connecting, &tx, &DeliveryEvent::Connected, 0);
    assert_eq!(s, DeliveryState::Greeting);
    assert!(matches!(a, DeliveryAction::Greet));
    let (s, t) = waits(s, DeliveryEvent::Sent, 1_000);
    assert_eq!((s, t), (DeliveryState::AwaitingVersion { deadline_ms: 6_000 }, 5_000));
    let (s, t) = waits(s, DeliveryEvent::Received(DeliveryMessage::Other), 2_500);
    assert_eq!((s, t), (DeliveryState::AwaitingVersion { deadline_ms: 6_000 }, 3_500));
    let (s, a) = delivery_step(s, &tx, &version(NODE_LIBRE_RELAY | NODE_NETWORK), 3_000);
    assert_eq!(s, DeliveryState::Offering);
    match a {
        DeliveryAction::Send(list) => {
            assert_eq!(list.len(), 3);
            assert!(matches!(list[0], Outgoing::Verack));
            assert!(matches!(&list[1], Outgoing::Tx(t) if t.bytes() == tx.bytes()));
            assert!(matches!(&list[2], Outgoing::GetData(id) if *id == tx.txid()));
        }
        other => panic!("{:?}", other),
    }
    let (s, t) = waits(s, DeliveryEvent::Sent, 3_100);
    assert_eq!((s, t), (DeliveryState::AwaitingReply, 12_000));
    let (s, t) = waits(s, DeliveryEvent::Received(DeliveryMessage::Other), 9_000);
    assert_eq!((s, t), (DeliveryState::AwaitingReply, 12_000));
    let (s, _) = delivery_step(
        s,
        &tx,
        &DeliveryEvent::Received(DeliveryMessage::Tx(tx.txid())),
        9_500,
    );
    assert_eq!(
        s,
        DeliveryState::Closed(DeliveryOutcome::Confirmed(Confirmation::Returned))
    );
}

#[test]
fn other_nodes_are_sent_nothing() {
    let state = DeliveryState::AwaitingVersion { deadline_ms: 5_000 };
    assert_eq!(
        closes(state, version(!NODE_LIBRE_RELAY)),
        Some(DeliveryOutcome::NotConfirmed(Doubt::NotLibreRelay))
    );
}

#[test]
fn no_time_is_left_after_the_deadline() {
    let state = DeliveryState::AwaitingVersion { deadline_ms: 5_000 };
    let event = DeliveryEvent::Received(DeliveryMessage::Other);
    assert_eq!(waits(state, event, 5_001), (state, 0));
}

#[test]
fn the_deadline_stops_at_the_end_of_time() {
    let (s, t) = waits(DeliveryState::Greeting, DeliveryEvent::Sent, u64::MAX - 1);
    assert_eq!((s, t), (DeliveryState::AwaitingVersion { deadline_ms: u64::MAX }, 5_000));
}

#[test]
fn failures_on_the_way() {
    let failed = |f: Failure| Some(DeliveryOutcome::Failed(f));
    let awaiting = DeliveryState::AwaitingVersion { deadline_ms: 0 };
    assert_eq!(
        closes(DeliveryState::Connecting, DeliveryEvent::ConnectFailed),
        failed(Failure::ConnectFailed)
    );
    assert_eq!(
        closes(DeliveryState::Connecting, DeliveryEvent::ConnectTimedOut),
        failed(Failure::ConnectTimedOut)
    );
    assert_eq!(
        closes(DeliveryState::Greeting, DeliveryEvent::SendFailed),
        failed(Failure::SendFailed)
    );
    assert_eq!(closes(awaiting, DeliveryEvent::ReadFailed), failed(Failure::ReadFailed));
    assert_eq!(closes(awaiting, DeliveryEvent::ReadTimedOut), failed(Failure::VersionTimedOut));
    assert_eq!(
        closes(DeliveryState::Offering, DeliveryEvent::SendFailed),
        failed(Failure::SendFailed)
    );
    assert_eq!(
        closes(DeliveryState::Connecting, DeliveryEvent::Sent),
        failed(Failure::OutOfStep)
    );
}

#[test]
fn silence_after_the_offer_leaves_it_open() {
    assert_eq!(
        closes(DeliveryState::AwaitingReply, DeliveryEvent::ReadFailed),
        Some(DeliveryOutcome::NotConfirmed(Doubt::ReadFailed))
    );
    assert_eq!(
        closes(DeliveryState::AwaitingReply, DeliveryEvent::ReadTimedOut),
        Some(DeliveryOutcome::NotConfirmed(Doubt::TimedOut))
    );
}

#[test]
fn replies_are_judged_by_the_id() {
    let id = [7u8; 32];
    let mut other = id;
    other[31] = 8;
    let list = |x: [u8; 32]| vec![InvItem::Other, InvItem::Transaction(x)];
    assert_eq!(
        judge_reply(&DeliveryMessage::Tx(id), &id),
        Some(DeliveryOutcome::Confirmed(Confirmation::Returned))
    );
    assert_eq!(judge_reply(&DeliveryMessage::Tx(other), &id), None);
    assert_eq!(
        judge_reply(&DeliveryMessage::Inv(list(id)), &id),
        Some(DeliveryOutcome::Confirmed(Confirmation::Announced))
    );
    assert_eq!(judge_reply(&DeliveryMessage::Inv(list(other)), &id), None);
    assert_eq!(
        judge_reply(&DeliveryMessage::NotFound(list(id)), &id),
        Some(DeliveryOutcome::NotConfirmed(Doubt::NotFound))
    );
    assert_eq!(judge_reply(&DeliveryMessage::NotFound(list(other)), &id), None);
    assert_eq!(judge_reply(&DeliveryMessage::Other, &id), None);
    assert!(list_mentions(&list(id), &id));
    assert!(!list_mentions(&vec![], &id));
}

#[test]
fn the_first_reply_about_the_transaction_decides() {
    let tx = genesis();
    let item = InvItem::Transaction(tx.txid());
    let not_found = DeliveryEvent::Received(DeliveryMessage::NotFound(vec![item]));
    let announced = DeliveryEvent::Received(DeliveryMessage::Inv(vec![item]));
    let doubt = DeliveryState::Closed(DeliveryOutcome::NotConfirmed(Doubt::NotFound));
    let (s, _) = delivery_step(DeliveryState::AwaitingReply, &tx, &not_found, 0);
    assert_eq!(s, doubt);
    let (s, a) = delivery_step(s, &tx, &announced, 0);
    assert_eq!(s, doubt);
    assert!(matches!(
        a,
        DeliveryAction::Finish(DeliveryOutcome::NotConfirmed(Doubt::NotFound))
    ));
    let (s, _) = delivery_step(DeliveryState::AwaitingReply, &tx, &announced, 0);
    assert_eq!(
        s,
        DeliveryState::Closed(DeliveryOutcome::Confirmed(Confirmation::Announced))
    );
}

#[test]
fn words_for_each_failure() {
    let ip = NetworkAddress::Ip(Endpoint { ip: IpHost::V4(0x01020304), port: 8333 });
    let onion = NetworkAddress::Onion("a.onion".to_string());
    let text = |f: Failure, a: &NetworkAddress| failure_text(f, a, "1.2.3.4:8333", "refused");
    assert_eq!(text(Failure::ConnectTimedOut, &ip), "timeout connecting to 1.2.3.4:8333");
    assert_eq!(text(Failure::ConnectTimedOut, &onion), "timeout connecting to a.onion");
    assert_eq!(
        text(Failure::VersionTimedOut, &ip),
        "Timeout waiting for peer Version from Ip(1.2.3.4:8333)"
    );
    assert_eq!(
        text(Failure::VersionTimedOut, &onion),
        "Timeout waiting for peer Version from Onion(\"a.onion\")"
    );
    let odd = NetworkAddress::Onion("a\"b\\\n".to_string());
    assert_eq!(
        text(Failure::VersionTimedOut, &odd),
        "Timeout waiting for peer Version from Onion(\"a\\\"b\\\\\\n\")"
    );
    let quote = NetworkAddress::Onion("it's".to_string());
    assert_eq!(
        text(Failure::VersionTimedOut, &quote),
        "Timeout waiting for peer Version from Onion(\"it's\")"
    );
    for f in [Failure::ConnectFailed, Failure::SendFailed, Failure::ReadFailed] {
        assert_eq!(text(f, &ip), "refused");
    }
    assert_eq!(text(Failure::OutOfStep, &ip), "event out of step");
}

#[test]
fn what_a_delivery_comes_to() {
    let onion = NetworkAddress::Onion("a.onion".to_string());
    let result = |o: DeliveryOutcome| deliver_poop_tx(o, &onion, "", "broken pipe");
    assert_eq!(result(DeliveryOutcome::Confirmed(Confirmation::Announced)), Ok(true));
    assert_eq!(result(DeliveryOutcome::NotConfirmed(Doubt::TimedOut)), Ok(false));
    assert_eq!(
        result(DeliveryOutcome::Failed(Failure::SendFailed)),
        Err("broken pipe".to_string())
    );
    assert_eq!(complaint(Ok(true)), None);
    assert_eq!(
        complaint(Ok(false)),
        Some("No Tx confirmation, rejected, or skipped by peer.".to_string())
    );
    assert_eq!(complaint(Err("x".to_string())), Some("x".to_string()));
}

#[test]
fn trouble_of_the_network_is_tried_again() {
    assert_eq!(MAX_ATTEMPTS, 2);
    let trouble = [
        DeliveryOutcome::Failed(Failure::ConnectFailed),
        DeliveryOutcome::Failed(Failure::ConnectTimedOut),
        DeliveryOutcome::Failed(Failure::VersionTimedOut),
        DeliveryOutcome::NotConfirmed(Doubt::ReadFailed),
        DeliveryOutcome::NotConfirmed(Doubt::TimedOut),
    ];
    for outcome in trouble {
        assert!(another_attempt(&Some(outcome), 1));
        assert!(!another_attempt(&Some(outcome), 2));
        assert!(!another_attempt(&Some(outcome), usize::MAX));
    }
    let settled = [
        DeliveryOutcome::Confirmed(Confirmation::Returned),
        DeliveryOutcome::NotConfirmed(Doubt::NotFound),
        DeliveryOutcome::NotConfirmed(Doubt::NotLibreRelay),
    ];
    for outcome in settled {
        assert!(!another_attempt(&Some(outcome), 1));
    }
    assert!(!another_attempt(&None, 1));
}
