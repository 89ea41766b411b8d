//! Handing a transaction to one node: greet it, learn whether it is a libre-relay node,
//! send it the transaction, ask for it back, and judge by the replies whether the node has
//! taken it.
//!
//! [`delivery_step`] decides what to do on each event. Whoever holds the connection carries
//! the action out and reports what came of it as the next event.

use vstd::prelude::*;

use crate::address::{Endpoint, NetworkAddress, PeerAddress};
use crate::services::{announces_libre_relay, is_libre_relay, libre_relay_is_told_by_one_bit};
use crate::text::{debug_text, text_shown};
use crate::transaction::{transaction_id, Transaction};
use crate::wire::{DeliveryMessage, DeliveryView, InvItem, Outgoing, OutgoingView};

verus! {

/// How many deliveries, or crawls, may be under way at once.
pub const MAX_CONCURRENT_DELIVERIES: usize = 100;

/// How long to wait for a connection, and for each message of a node.
pub const CONNECTION_TIMEOUT_MS: u64 = 12_000;

/// How long to wait for a node to introduce itself.
pub const VERSION_TIMEOUT_MS: u64 = 5_000;

/// How often a transaction is handed to one node, at most, where the network gets in the way.
pub const MAX_ATTEMPTS: usize = 2;

/// How a node showed that it has the transaction.
#[derive(Clone, Copy, Debug, PartialEq, Eq, Structural)]
pub enum Confirmation {
    /// It sent the transaction back.
    Returned,
    /// It announced the transaction.
    Announced,
}

/// Why it is open whether a node has the transaction.
#[derive(Clone, Copy, Debug, PartialEq, Eq, Structural)]
pub enum Doubt {
    /// The node is no libre-relay node, so nothing was sent to it.
    NotLibreRelay,
    /// The node said that it does not have the transaction.
    NotFound,
    ReadFailed,
    TimedOut,
}

/// Why a delivery did not come to its end.
#[derive(Clone, Copy, Debug, PartialEq, Eq, Structural)]
pub enum Failure {
    ConnectFailed,
    ConnectTimedOut,
    SendFailed,
    ReadFailed,
    VersionTimedOut,
    /// An event was reported that does not follow from the last action.
    OutOfStep,
}

/// What came of a delivery.
#[derive(Clone, Copy, Debug, PartialEq, Eq, Structural)]
pub enum DeliveryOutcome {
    Confirmed(Confirmation),
    NotConfirmed(Doubt),
    Failed(Failure),
}

/// How far a delivery has come.
#[derive(Clone, Copy, Debug, PartialEq, Eq, Structural)]
pub enum DeliveryState {
    Connecting,
    Greeting,
    AwaitingVersion { deadline_ms: u64 },
    Offering,
    AwaitingReply,
    Closed(DeliveryOutcome),
}

/// What happened on the connection.
#[derive(Debug)]
pub enum DeliveryEvent {
    Connected,
    ConnectFailed,
    ConnectTimedOut,
    /// All of what was to be sent is sent.
    Sent,
    SendFailed,
    Received(DeliveryMessage),
    ReadFailed,
    ReadTimedOut,
}

/// A [`DeliveryEvent`] with its message as sequences.
pub enum DeliveryEventView {
    Connected,
    ConnectFailed,
    ConnectTimedOut,
    Sent,
    SendFailed,
    Received(DeliveryView),
    ReadFailed,
    ReadTimedOut,
}

impl View for DeliveryEvent {
    type V = DeliveryEventView;

    open spec fn view(&self) -> DeliveryEventView {
        match *self {
            DeliveryEvent::Connected => DeliveryEventView::Connected,
            DeliveryEvent::ConnectFailed => DeliveryEventView::ConnectFailed,
            DeliveryEvent::ConnectTimedOut => DeliveryEventView::ConnectTimedOut,
            DeliveryEvent::Sent => DeliveryEventView::Sent,
            DeliveryEvent::SendFailed => DeliveryEventView::SendFailed,
            DeliveryEvent::Received(m) => DeliveryEventView::Received(m@),
            DeliveryEvent::ReadFailed => DeliveryEventView::ReadFailed,
            DeliveryEvent::ReadTimedOut => DeliveryEventView::ReadTimedOut,
        }
    }
}

/// What to do on the connection.
#[derive(Debug)]
pub enum DeliveryAction {
    /// Send the introduction.
    Greet,
    /// Send these messages, one after the other.
    Send(Vec<Outgoing>),
    /// Wait for a message, but no longer than this.
    Receive { timeout_ms: u64 },
    /// Close the connection.
    Finish(DeliveryOutcome),
}

/// A [`DeliveryAction`] with its messages as a sequence.
pub enum DeliveryActionView {
    Greet,
    Send(Seq<OutgoingView>),
    Receive { timeout_ms: u64 },
    Finish(DeliveryOutcome),
}

impl View for DeliveryAction {
    type V = DeliveryActionView;

    open spec fn view(&self) -> DeliveryActionView {
        match *self {
            DeliveryAction::Greet => DeliveryActionView::Greet,
            DeliveryAction::Send(list) => DeliveryActionView::Send(
                list@.map_values(|m: Outgoing| m@),
            ),
            DeliveryAction::Receive { timeout_ms } => DeliveryActionView::Receive { timeout_ms },
            DeliveryAction::Finish(outcome) => DeliveryActionView::Finish(outcome),
        }
    }
}

/// Whether a list has the transaction with the id `txid` among its items.
pub open spec fn mentions(list: Seq<InvItem>, txid: Seq<u8>) -> bool {
    exists|i: int|
        0 <= i < list.len() && (#[trigger] list[i] matches InvItem::Transaction(id) && id@ == txid)
}

/// What a reply of the node says about the transaction with the id `txid`, if it says
/// anything.
pub open spec fn reply_verdict(reply: DeliveryView, txid: Seq<u8>) -> Option<DeliveryOutcome> {
    match reply {
        DeliveryView::Tx(id) => if id == txid {
            Some(DeliveryOutcome::Confirmed(Confirmation::Returned))
        } else {
            None
        },
        DeliveryView::NotFound(list) => if mentions(list, txid) {
            Some(DeliveryOutcome::NotConfirmed(Doubt::NotFound))
        } else {
            None
        },
        DeliveryView::Inv(list) => if mentions(list, txid) {
            Some(DeliveryOutcome::Confirmed(Confirmation::Announced))
        } else {
            None
        },
        _ => None,
    }
}

/// The messages that offer a transaction to a node and ask for it back.
pub open spec fn offer(tx: Seq<u8>) -> Seq<OutgoingView> {
    seq![
        OutgoingView::Verack,
        OutgoingView::Tx(tx),
        OutgoingView::GetData(transaction_id(tx)),
    ]
}

/// The time `ms` after `now_ms`, or the end of time.
pub open spec fn later(now_ms: u64, ms: u64) -> u64 {
    if now_ms + ms <= u64::MAX {
        (now_ms + ms) as u64
    } else {
        u64::MAX
    }
}

/// The time from `now_ms` to `deadline_ms`; none if it has passed.
pub open spec fn time_left(deadline_ms: u64, now_ms: u64) -> u64 {
    if now_ms <= deadline_ms {
        (deadline_ms - now_ms) as u64
    } else {
        0
    }
}

/// The next state of the delivery of `tx`, and what to do, on an event at the time `now_ms`.
pub open spec fn delivery_next(
    state: DeliveryState,
    tx: Seq<u8>,
    event: DeliveryEventView,
    now_ms: u64,
) -> (DeliveryState, DeliveryActionView) {
    let close = |outcome: DeliveryOutcome|
        (DeliveryState::Closed(outcome), DeliveryActionView::Finish(outcome));
    match (state, event) {
        (DeliveryState::Closed(outcome), _) => close(outcome),
        (DeliveryState::Connecting, DeliveryEventView::Connected) => (
            DeliveryState::Greeting,
            DeliveryActionView::Greet,
        ),
        (DeliveryState::Connecting, DeliveryEventView::ConnectFailed) => close(
            DeliveryOutcome::Failed(Failure::ConnectFailed),
        ),
        (DeliveryState::Connecting, DeliveryEventView::ConnectTimedOut) => close(
            DeliveryOutcome::Failed(Failure::ConnectTimedOut),
        ),
        (DeliveryState::Greeting, DeliveryEventView::Sent) => (
            DeliveryState::AwaitingVersion { deadline_ms: later(now_ms, VERSION_TIMEOUT_MS) },
            DeliveryActionView::Receive { timeout_ms: VERSION_TIMEOUT_MS },
        ),
        (DeliveryState::Greeting, DeliveryEventView::SendFailed) => close(
            DeliveryOutcome::Failed(Failure::SendFailed),
        ),
        (
            DeliveryState::AwaitingVersion { deadline_ms },
            DeliveryEventView::Received(message),
        ) => match message {
            DeliveryView::Version { services, .. } => if announces_libre_relay(services) {
                (DeliveryState::Offering, DeliveryActionView::Send(offer(tx)))
            } else {
                close(DeliveryOutcome::NotConfirmed(Doubt::NotLibreRelay))
            },
            _ => (
                state,
                DeliveryActionView::Receive { timeout_ms: time_left(deadline_ms, now_ms) },
            ),
        },
        (DeliveryState::AwaitingVersion { .. }, DeliveryEventView::ReadFailed) => close(
            DeliveryOutcome::Failed(Failure::ReadFailed),
        ),
        (DeliveryState::AwaitingVersion { .. }, DeliveryEventView::ReadTimedOut) => close(
            DeliveryOutcome::Failed(Failure::VersionTimedOut),
        ),
        (DeliveryState::Offering, DeliveryEventView::Sent) => (
            DeliveryState::AwaitingReply,
            DeliveryActionView::Receive { timeout_ms: CONNECTION_TIMEOUT_MS },
        ),
        (DeliveryState::Offering, DeliveryEventView::SendFailed) => close(
            DeliveryOutcome::Failed(Failure::SendFailed),
        ),
        (DeliveryState::AwaitingReply, DeliveryEventView::Received(reply)) => match reply_verdict(
            reply,
            transaction_id(tx),
        ) {
            Some(outcome) => close(outcome),
            None => (
                DeliveryState::AwaitingReply,
                DeliveryActionView::Receive { timeout_ms: CONNECTION_TIMEOUT_MS },
            ),
        },
        (DeliveryState::AwaitingReply, DeliveryEventView::ReadFailed) => close(
            DeliveryOutcome::NotConfirmed(Doubt::ReadFailed),
        ),
        (DeliveryState::AwaitingReply, DeliveryEventView::ReadTimedOut) => close(
            DeliveryOutcome::NotConfirmed(Doubt::TimedOut),
        ),
        _ => close(DeliveryOutcome::Failed(Failure::OutOfStep)),
    }
}

/// Compares two transaction ids.
fn same_id(a: &[u8; 32], b: &[u8; 32]) -> (r: bool)
    ensures
        r == (a@ == b@),
{
    let mut i: usize = 0;
    while i < 32
        invariant
            i <= 32,
            forall|k: int| 0 <= k < i ==> a@[k] == b@[k],
        decreases 32 - i,
    {
        if a[i] != b[i] {
            return false;
        }
        i = i + 1;
    }
    assert(a@ =~= b@);
    true
}

/// Looks for a transaction in a list.
pub fn list_mentions(list: &Vec<InvItem>, txid: &[u8; 32]) -> (r: bool)
    ensures
        r == mentions(list@, txid@),
{
    let mut i: usize = 0;
    while i < list.len()
        invariant
            i <= list.len(),
            forall|k: int|
                0 <= k < i ==> !(#[trigger] list@[k] matches InvItem::Transaction(id) && id@
                    == txid@),
        decreases list.len() - i,
    {
        if let InvItem::Transaction(id) = &list[i] {
            if same_id(id, txid) {
                assert(list@[i as int] matches InvItem::Transaction(id) && id@ == txid@);
                return true;
            }
        }
        i = i + 1;
    }
    false
}

/// Judges a reply of the node.
pub fn judge_reply(reply: &DeliveryMessage, txid: &[u8; 32]) -> (r: Option<DeliveryOutcome>)
    ensures
        r == reply_verdict(reply@, txid@),
{
    match reply {
        DeliveryMessage::Tx(id) => if same_id(id, txid) {
            Some(DeliveryOutcome::Confirmed(Confirmation::Returned))
        } else {
            None
        },
        DeliveryMessage::NotFound(list) => if list_mentions(list, txid) {
            Some(DeliveryOutcome::NotConfirmed(Doubt::NotFound))
        } else {
            None
        },
        DeliveryMessage::Inv(list) => if list_mentions(list, txid) {
            Some(DeliveryOutcome::Confirmed(Confirmation::Announced))
        } else {
            None
        },
        _ => None,
    }
}

/// The messages that offer a transaction to a node and ask for it back.
fn offer_of(tx: &Transaction) -> (list: Vec<Outgoing>)
    ensures
        list@.map_values(|m: Outgoing| m@) == offer(tx@),
{
    let mut list: Vec<Outgoing> = Vec::new();
    list.push(Outgoing::Verack);
    list.push(Outgoing::Tx(tx.clone()));
    list.push(Outgoing::GetData(tx.txid()));
    assert(list@.map_values(|m: Outgoing| m@) =~= offer(tx@));
    list
}

/// Ends a delivery.
fn close(outcome: DeliveryOutcome) -> (r: (DeliveryState, DeliveryAction))
    ensures
        r.0 == DeliveryState::Closed(outcome),
        r.1@ == DeliveryActionView::Finish(outcome),
{
    (DeliveryState::Closed(outcome), DeliveryAction::Finish(outcome))
}

/// Decides how the delivery of `tx` goes on after an event at the time `now_ms`.
///
/// The first action of a delivery is to connect to the node, and its first event says what
/// came of that.
pub fn delivery_step(
    state: DeliveryState,
    tx: &Transaction,
    event: &DeliveryEvent,
    now_ms: u64,
) -> (r: (DeliveryState, DeliveryAction))
    ensures
        (r.0, r.1@) == delivery_next(state, tx@, event@, now_ms),
{
    match (state, event) {
        (DeliveryState::Closed(outcome), _) => close(outcome),
        (DeliveryState::Connecting, DeliveryEvent::Connected) => (
            DeliveryState::Greeting,
            DeliveryAction::Greet,
        ),
        (DeliveryState::Connecting, DeliveryEvent::ConnectFailed) => close(
            DeliveryOutcome::Failed(Failure::ConnectFailed),
        ),
        (DeliveryState::Connecting, DeliveryEvent::ConnectTimedOut) => close(
            DeliveryOutcome::Failed(Failure::ConnectTimedOut),
        ),
        (DeliveryState::Greeting, DeliveryEvent::Sent) => (
            DeliveryState::AwaitingVersion {
                deadline_ms: now_ms.saturating_add(VERSION_TIMEOUT_MS),
            },
            DeliveryAction::Receive { timeout_ms: VERSION_TIMEOUT_MS },
        ),
        (DeliveryState::Greeting, DeliveryEvent::SendFailed) => close(
            DeliveryOutcome::Failed(Failure::SendFailed),
        ),
        (DeliveryState::AwaitingVersion { deadline_ms }, DeliveryEvent::Received(message)) => {
            match message {
                DeliveryMessage::Version { services, .. } => {
                    if is_libre_relay(*services) {
                        (DeliveryState::Offering, DeliveryAction::Send(offer_of(tx)))
                    } else {
                        close(DeliveryOutcome::NotConfirmed(Doubt::NotLibreRelay))
                    }
                },
                _ => (
                    state,
                    DeliveryAction::Receive { timeout_ms: deadline_ms.saturating_sub(now_ms) },
                ),
            }
        },
        (DeliveryState::AwaitingVersion { .. }, DeliveryEvent::ReadFailed) => close(
            DeliveryOutcome::Failed(Failure::ReadFailed),
        ),
        (DeliveryState::AwaitingVersion { .. }, DeliveryEvent::ReadTimedOut) => close(
            DeliveryOutcome::Failed(Failure::VersionTimedOut),
        ),
        (DeliveryState::Offering, DeliveryEvent::Sent) => (
            DeliveryState::AwaitingReply,
            DeliveryAction::Receive { timeout_ms: CONNECTION_TIMEOUT_MS },
        ),
        (DeliveryState::Offering, DeliveryEvent::SendFailed) => close(
            DeliveryOutcome::Failed(Failure::SendFailed),
        ),
        (DeliveryState::AwaitingReply, DeliveryEvent::Received(reply)) => {
            let txid = tx.txid();
            match judge_reply(reply, &txid) {
                Some(outcome) => close(outcome),
                None => (
                    DeliveryState::AwaitingReply,
                    DeliveryAction::Receive { timeout_ms: CONNECTION_TIMEOUT_MS },
                ),
            }
        },
        (DeliveryState::AwaitingReply, DeliveryEvent::ReadFailed) => close(
            DeliveryOutcome::NotConfirmed(Doubt::ReadFailed),
        ),
        (DeliveryState::AwaitingReply, DeliveryEvent::ReadTimedOut) => close(
            DeliveryOutcome::NotConfirmed(Doubt::TimedOut),
        ),
        _ => close(DeliveryOutcome::Failed(Failure::OutOfStep)),
    }
}

/// How the address of a node is written, where `socket` is how its IP address and port are.
pub open spec fn address_words(addr: PeerAddress, socket: Seq<char>) -> Seq<char> {
    match addr {
        PeerAddress::Ip(_) => socket,
        PeerAddress::Onion(name) => name,
    }
}

/// The address of a node together with what kind of address it is.
pub open spec fn labelled_address_words(addr: PeerAddress, socket: Seq<char>) -> Seq<char> {
    match addr {
        PeerAddress::Ip(_) => "Ip("@ + socket + ")"@,
        PeerAddress::Onion(name) => "Onion("@ + text_shown(name) + ")"@,
    }
}

/// Why a delivery to the node at `addr` did not come to its end, in words. What the network said
/// of it, `detail`, is passed on as it is.
pub open spec fn failure_words(
    failure: Failure,
    addr: PeerAddress,
    socket: Seq<char>,
    detail: Seq<char>,
) -> Seq<char> {
    match failure {
        Failure::ConnectTimedOut => "timeout connecting to "@ + address_words(addr, socket),
        Failure::VersionTimedOut => "Timeout waiting for peer Version from "@
            + labelled_address_words(addr, socket),
        Failure::ConnectFailed | Failure::SendFailed | Failure::ReadFailed => detail,
        Failure::OutOfStep => "event out of step"@,
    }
}

/// Writes why a delivery did not come to its end.
pub fn failure_text(failure: Failure, addr: &NetworkAddress, socket: &str, detail: &str) -> (s:
    String)
    ensures
        s@ == failure_words(failure, addr@, socket@, detail@),
{
    match failure {
        Failure::ConnectTimedOut => {
            let mut s = "timeout connecting to ".to_owned();
            match addr {
                NetworkAddress::Ip(_) => s.append(socket),
                NetworkAddress::Onion(name) => s.append(name.as_str()),
            }
            s
        },
        Failure::VersionTimedOut => {
            let mut s = "Timeout waiting for peer Version from ".to_owned();
            let ghost before = s@;
            match addr {
                NetworkAddress::Ip(_) => {
                    s.append("Ip(");
                    s.append(socket);
                    s.append(")");
                },
                NetworkAddress::Onion(name) => {
                    let shown = debug_text(name.as_str());
                    s.append("Onion(");
                    s.append(shown.as_str());
                    s.append(")");
                },
            }
            assert(s@ =~= before + labelled_address_words(addr@, socket@));
            s
        },
        Failure::ConnectFailed | Failure::SendFailed | Failure::ReadFailed => detail.to_owned(),
        Failure::OutOfStep => "event out of step".to_owned(),
    }
}

/// What a delivery comes to: whether the node confirmed the transaction, or why the delivery did
/// not come to its end.
pub open spec fn delivery_result(
    outcome: DeliveryOutcome,
    addr: PeerAddress,
    socket: Seq<char>,
    detail: Seq<char>,
) -> Result<bool, Seq<char>> {
    match outcome {
        DeliveryOutcome::Confirmed(_) => Ok(true),
        DeliveryOutcome::NotConfirmed(_) => Ok(false),
        DeliveryOutcome::Failed(failure) => Err(failure_words(failure, addr, socket, detail)),
    }
}

/// Tells what the delivery to the node at `addr` came to.
pub fn deliver_poop_tx(
    outcome: DeliveryOutcome,
    addr: &NetworkAddress,
    socket: &str,
    detail: &str,
) -> (r: Result<bool, String>)
    ensures
        match r {
            Ok(confirmed) => delivery_result(outcome, addr@, socket@, detail@) == Ok::<
                bool,
                Seq<char>,
            >(confirmed),
            Err(text) => delivery_result(outcome, addr@, socket@, detail@) == Err::<
                bool,
                Seq<char>,
            >(text@),
        },
{
    match outcome {
        DeliveryOutcome::Confirmed(_) => Ok(true),
        DeliveryOutcome::NotConfirmed(_) => Ok(false),
        DeliveryOutcome::Failed(failure) => Err(failure_text(failure, addr, socket, detail)),
    }
}

/// What is held against a node after a delivery, if anything is.
pub open spec fn complaint_words(result: Result<bool, Seq<char>>) -> Option<Seq<char>> {
    match result {
        Ok(true) => None,
        Ok(false) => Some("No Tx confirmation, rejected, or skipped by peer."@),
        Err(text) => Some(text),
    }
}

/// Writes what is held against a node after a delivery, if anything is.
pub fn complaint(result: Result<bool, String>) -> (r: Option<String>)
    ensures
        match r {
            Some(s) => complaint_words(
                match result {
                    Ok(confirmed) => Ok::<bool, Seq<char>>(confirmed),
                    Err(text) => Err::<bool, Seq<char>>(text@),
                },
            ) == Some(s@),
            None => result == Ok::<bool, String>(true),
        },
{
    match result {
        Ok(true) => None,
        Ok(false) => Some("No Tx confirmation, rejected, or skipped by peer.".to_owned()),
        Err(text) => Some(text),
    }
}

/// Whether it was the network that kept a delivery from its end: an error or a timeout.
pub open spec fn network_trouble(outcome: DeliveryOutcome) -> bool {
    match outcome {
        DeliveryOutcome::Failed(_) => true,
        DeliveryOutcome::NotConfirmed(Doubt::ReadFailed) => true,
        DeliveryOutcome::NotConfirmed(Doubt::TimedOut) => true,
        _ => false,
    }
}

/// Whether to hand the transaction to the node once more, where the last of `attempts` attempts
/// came to `outcome`; an attempt whose task was lost has no outcome.
pub open spec fn wants_another_attempt(outcome: Option<DeliveryOutcome>, attempts: nat) -> bool {
    attempts < MAX_ATTEMPTS && (outcome matches Some(o) && network_trouble(o))
}

/// Decides whether to hand the transaction to the node once more: an error of the network or a
/// timeout is not the last word while attempts are left.
pub fn another_attempt(outcome: &Option<DeliveryOutcome>, attempts: usize) -> (r: bool)
    ensures
        r == wants_another_attempt(*outcome, attempts as nat),
{
    if attempts >= MAX_ATTEMPTS {
        return false;
    }
    match outcome {
        Some(DeliveryOutcome::Failed(_)) => true,
        Some(DeliveryOutcome::NotConfirmed(Doubt::ReadFailed)) => true,
        Some(DeliveryOutcome::NotConfirmed(Doubt::TimedOut)) => true,
        _ => false,
    }
}

/// Whether these are all the attempts that are made at one node: another one was wanted after
/// each but the last.
pub open spec fn tried_to_the_end(attempts: Seq<Option<DeliveryOutcome>>) -> bool {
    &&& attempts.len() > 0
    &&& forall|i: int|
        0 <= i < attempts.len() - 1 ==> wants_another_attempt(
            #[trigger] attempts[i],
            (i + 1) as nat,
        )
    &&& !wants_another_attempt(attempts.last(), attempts.len())
}

/// A node is given up on account of the network only after the last attempt that is allowed. A
/// first attempt that the network kept from its end is followed by a second. No attempt follows
/// one that the node confirmed, so a confirmation is what the attempts come to.
pub proof fn trouble_is_tried_again(attempts: Seq<Option<DeliveryOutcome>>)
    requires
        tried_to_the_end(attempts),
    ensures
        1 <= attempts.len() <= MAX_ATTEMPTS,
        attempts[0] matches Some(outcome) && network_trouble(outcome) ==> attempts.len() >= 2,
        attempts.last() matches Some(outcome) && network_trouble(outcome) ==> attempts.len()
            == MAX_ATTEMPTS,
        forall|i: int|
            0 <= i < attempts.len() ==> (#[trigger] attempts[i] matches Some(
                DeliveryOutcome::Confirmed(_),
            ) ==> i == attempts.len() - 1),
{
    if attempts.len() > 1 {
        let i = attempts.len() - 2;
        assert(wants_another_attempt(attempts[i], (i + 1) as nat));
    }
}

/// The state of the delivery of `tx` after the events of `trace`, each with its time.
pub open spec fn delivery_run(tx: Seq<u8>, trace: Seq<(DeliveryEventView, u64)>) -> DeliveryState
    decreases trace.len(),
{
    if trace.len() == 0 {
        DeliveryState::Connecting
    } else {
        delivery_next(
            delivery_run(tx, trace.drop_last()),
            tx,
            trace.last().0,
            trace.last().1,
        ).0
    }
}

/// What is done in the delivery of `tx` on the last event of `trace`.
pub open spec fn last_action(
    tx: Seq<u8>,
    trace: Seq<(DeliveryEventView, u64)>,
) -> DeliveryActionView {
    delivery_next(
        delivery_run(tx, trace.drop_last()),
        tx,
        trace.last().0,
        trace.last().1,
    ).1
}

/// Whether a node introduces itself as a libre-relay node.
pub open spec fn introduces_libre_relay(event: DeliveryEventView) -> bool {
    event matches DeliveryEventView::Received(DeliveryView::Version { services, .. })
        && announces_libre_relay(services)
}

/// Whether a node shows that it has the transaction `tx`.
pub open spec fn shows_transaction(event: DeliveryEventView, tx: Seq<u8>) -> bool {
    match event {
        DeliveryEventView::Received(DeliveryView::Tx(id)) => id == transaction_id(tx),
        DeliveryEventView::Received(DeliveryView::Inv(list)) => mentions(list, transaction_id(tx)),
        _ => false,
    }
}

/// Nothing but the introduction is sent to a node before it has introduced itself as a
/// libre-relay node, and then it is sent the offer of the transaction.
pub proof fn only_libre_relays_are_offered_the_transaction(
    tx: Seq<u8>,
    trace: Seq<(DeliveryEventView, u64)>,
)
    requires
        trace.len() > 0,
        last_action(tx, trace) is Send,
    ensures
        introduces_libre_relay(trace.last().0),
        last_action(tx, trace) == DeliveryActionView::Send(offer(tx)),
{
}

/// A reply is awaited only after the transaction was offered.
proof fn lemma_offered(tx: Seq<u8>, trace: Seq<(DeliveryEventView, u64)>) -> (at: int)
    requires
        delivery_run(tx, trace) is Offering || delivery_run(tx, trace) is AwaitingReply,
    ensures
        0 <= at < trace.len(),
        introduces_libre_relay(trace[at].0),
        last_action(tx, trace.take(at + 1)) == DeliveryActionView::Send(offer(tx)),
    decreases trace.len(),
{
    let init = trace.drop_last();
    if delivery_run(tx, init) is Offering || delivery_run(tx, init) is AwaitingReply {
        let at = lemma_offered(tx, init);
        assert(init.take(at + 1) =~= trace.take(at + 1));
        at
    } else {
        assert(trace.take(trace.len() as int) =~= trace);
        trace.len() - 1
    }
}

/// A delivery counts as confirmed only where the transaction was offered to a libre-relay
/// node and that node later sent the transaction back or announced it.
pub proof fn confirmed_means_offered_and_shown(
    tx: Seq<u8>,
    trace: Seq<(DeliveryEventView, u64)>,
)
    requires
        delivery_run(tx, trace) matches DeliveryState::Closed(DeliveryOutcome::Confirmed(_)),
    ensures
        exists|i: int, j: int|
            #![trigger trace[i], trace[j]]
            {
                &&& 0 <= i < j < trace.len()
                &&& introduces_libre_relay(trace[i].0)
                &&& last_action(tx, trace.take(i + 1)) == DeliveryActionView::Send(offer(tx))
                &&& shows_transaction(trace[j].0, tx)
            },
    decreases trace.len(),
{
    let init = trace.drop_last();
    if delivery_run(tx, init) is Closed {
        confirmed_means_offered_and_shown(tx, init);
        let (i, j) = choose|i: int, j: int|
            #![trigger init[i], init[j]]
            {
                &&& 0 <= i < j < init.len()
                &&& introduces_libre_relay(init[i].0)
                &&& last_action(tx, init.take(i + 1)) == DeliveryActionView::Send(offer(tx))
                &&& shows_transaction(init[j].0, tx)
            };
        assert(init.take(i + 1) =~= trace.take(i + 1));
        assert(trace[i] == init[i] && trace[j] == init[j]);
    } else {
        let i = lemma_offered(tx, init);
        let j = trace.len() - 1;
        assert(init.take(i + 1) =~= trace.take(i + 1));
        assert(trace[i] == init[i] && shows_transaction(trace[j].0, tx));
    }
}

/// Once a delivery is closed its outcome stands, whatever is reported afterwards.
pub proof fn an_outcome_is_final(
    tx: Seq<u8>,
    trace: Seq<(DeliveryEventView, u64)>,
    more: Seq<(DeliveryEventView, u64)>,
)
    requires
        delivery_run(tx, trace) is Closed,
    ensures
        delivery_run(tx, trace + more) == delivery_run(tx, trace),
    decreases more.len(),
{
    if more.len() == 0 {
        assert(trace + more =~= trace);
    } else {
        an_outcome_is_final(tx, trace, more.drop_last());
        assert((trace + more).drop_last() =~= trace + more.drop_last());
    }
}

/// Whether an event in a state breaks the delivery off, and so with which failure.
pub open spec fn breaks_off(
    state: DeliveryState,
    event: DeliveryEventView,
    failure: Failure,
) -> bool {
    match failure {
        Failure::ConnectFailed => state is Connecting && event is ConnectFailed,
        Failure::ConnectTimedOut => state is Connecting && event is ConnectTimedOut,
        Failure::SendFailed => (state is Greeting || state is Offering) && event is SendFailed,
        Failure::ReadFailed => state is AwaitingVersion && event is ReadFailed,
        Failure::VersionTimedOut => state is AwaitingVersion && event is ReadTimedOut,
        Failure::OutOfStep => delivery_next(state, Seq::empty(), event, 0).0
            == DeliveryState::Closed(DeliveryOutcome::Failed(Failure::OutOfStep)) && !(state
            is Closed),
    }
}

/// A delivery fails exactly where the connection cannot be made or is not made in time, where
/// something cannot be sent, or where reading goes wrong, or nothing comes in time, before the
/// node has introduced itself. What happens while a reply is awaited does not make it fail.
pub proof fn a_delivery_fails_where_it_is_broken_off(
    tx: Seq<u8>,
    trace: Seq<(DeliveryEventView, u64)>,
    failure: Failure,
)
    ensures
        delivery_run(tx, trace) == DeliveryState::Closed(DeliveryOutcome::Failed(failure))
            <==> exists|i: int|
            0 <= i < trace.len() && breaks_off(
                delivery_run(tx, trace.take(i)),
                (#[trigger] trace[i]).0,
                failure,
            ),
    decreases trace.len(),
{
    let failed = DeliveryState::Closed(DeliveryOutcome::Failed(failure));
    if delivery_run(tx, trace) == failed {
        let init = trace.drop_last();
        let last = trace.len() - 1;
        assert(trace.take(last) =~= init);
        if delivery_run(tx, init) is Closed {
            a_delivery_fails_where_it_is_broken_off(tx, init, failure);
            let i = choose|i: int|
                0 <= i < init.len() && breaks_off(
                    delivery_run(tx, init.take(i)),
                    (#[trigger] init[i]).0,
                    failure,
                );
            assert(trace.take(i) =~= init.take(i));
            assert(trace[i] == init[i]);
        } else {
            assert(breaks_off(delivery_run(tx, trace.take(last)), trace[last].0, failure));
        }
    }
    if exists|i: int|
        0 <= i < trace.len() && breaks_off(
            delivery_run(tx, trace.take(i)),
            (#[trigger] trace[i]).0,
            failure,
        ) {
        let i = choose|i: int|
            0 <= i < trace.len() && breaks_off(
                delivery_run(tx, trace.take(i)),
                (#[trigger] trace[i]).0,
                failure,
            );
        let part = trace.take(i + 1);
        assert(part.drop_last() =~= trace.take(i));
        assert(delivery_run(tx, part) == failed);
        an_outcome_is_final(tx, part, trace.skip(i + 1));
        assert(part + trace.skip(i + 1) =~= trace);
    }
}

/// What the first of some replies that says anything about the transaction says.
pub open spec fn first_verdict(replies: Seq<DeliveryView>, txid: Seq<u8>) -> Option<DeliveryOutcome>
    decreases replies.len(),
{
    if replies.len() == 0 {
        None
    } else {
        match reply_verdict(replies[0], txid) {
            Some(outcome) => Some(outcome),
            None => first_verdict(replies.drop_first(), txid),
        }
    }
}

/// Replies as events.
pub open spec fn received(
    replies: Seq<DeliveryView>,
    times: Seq<u64>,
) -> Seq<(DeliveryEventView, u64)> {
    Seq::new(replies.len(), |i: int| (DeliveryEventView::Received(replies[i]), times[i]))
}

/// After the offer, the first reply that says anything about the transaction decides the
/// delivery; until then the wait goes on.
pub proof fn the_first_verdict_decides(
    tx: Seq<u8>,
    trace: Seq<(DeliveryEventView, u64)>,
    replies: Seq<DeliveryView>,
    times: Seq<u64>,
)
    requires
        delivery_run(tx, trace) is AwaitingReply,
        times.len() == replies.len(),
    ensures
        delivery_run(tx, trace + received(replies, times)) == match first_verdict(
            replies,
            transaction_id(tx),
        ) {
            Some(outcome) => DeliveryState::Closed(outcome),
            None => DeliveryState::AwaitingReply,
        },
    decreases replies.len(),
{
    if replies.len() == 0 {
        assert(trace + received(replies, times) =~= trace);
    } else {
        let one = trace.push((DeliveryEventView::Received(replies[0]), times[0]));
        let rest = received(replies.drop_first(), times.drop_first());
        assert(one.drop_last() =~= trace);
        assert(trace + received(replies, times) =~= one + rest);
        if delivery_run(tx, one) is Closed {
            an_outcome_is_final(tx, one, rest);
        } else {
            the_first_verdict_decides(tx, one, replies.drop_first(), times.drop_first());
        }
    }
}

/// No wait for the introduction of a node is made to last beyond five seconds after the node was
/// greeted.
pub proof fn the_wait_for_a_version_is_bounded(tx: Seq<u8>, trace: Seq<(DeliveryEventView, u64)>)
    requires
        delivery_run(tx, trace) is AwaitingVersion,
    ensures
        exists|i: int|
            {
                &&& 0 <= i < trace.len()
                &&& (#[trigger] trace[i]).0 is Sent
                &&& delivery_run(tx, trace.take(i)) is Greeting
                &&& last_action(tx, trace) matches DeliveryActionView::Receive { timeout_ms }
                &&& timeout_ms == 0 || trace.last().1 + timeout_ms <= trace[i].1
                    + VERSION_TIMEOUT_MS
            },
{
    let (i, _) = lemma_greeted(tx, trace);
    assert(trace[i].0 is Sent);
}

/// The wait for an introduction ends five seconds after the greeting was sent.
proof fn lemma_greeted(tx: Seq<u8>, trace: Seq<(DeliveryEventView, u64)>) -> (r: (int, u64))
    requires
        delivery_run(tx, trace) is AwaitingVersion,
    ensures
        0 <= r.0 < trace.len(),
        trace[r.0].0 is Sent,
        delivery_run(tx, trace.take(r.0)) is Greeting,
        delivery_run(tx, trace) == (DeliveryState::AwaitingVersion { deadline_ms: r.1 }),
        r.1 == later(trace[r.0].1, VERSION_TIMEOUT_MS),
        r.0 == trace.len() - 1 ==> last_action(tx, trace) == (DeliveryActionView::Receive {
            timeout_ms: VERSION_TIMEOUT_MS,
        }),
        r.0 < trace.len() - 1 ==> last_action(tx, trace) == (DeliveryActionView::Receive {
            timeout_ms: time_left(r.1, trace.last().1),
        }),
    decreases trace.len(),
{
    let init = trace.drop_last();
    if delivery_run(tx, init) is AwaitingVersion {
        let (i, deadline_ms) = lemma_greeted(tx, init);
        assert(trace[i] == init[i]);
        assert(init.take(i) =~= trace.take(i));
        (i, deadline_ms)
    } else {
        assert(trace.take(trace.len() - 1) =~= init);
        (trace.len() - 1, later(trace.last().1, VERSION_TIMEOUT_MS))
    }
}

/// When a node introduces itself, bit 29 of its services alone decides: with it, whatever other
/// bits are set, the node is sent the acknowledgement, the transaction and a request for it;
/// without it, nothing more is sent.
pub proof fn the_libre_relay_bit_decides_on_the_offer(
    tx: Seq<u8>,
    trace: Seq<(DeliveryEventView, u64)>,
    services: u64,
    user_agent: Seq<char>,
    now_ms: u64,
)
    requires
        delivery_run(tx, trace) is AwaitingVersion,
    ensures
        ({
            let event = DeliveryEventView::Received(DeliveryView::Version { services, user_agent });
            let more = trace.push((event, now_ms));
            if (services / 0x2000_0000) % 2 == 1 {
                &&& delivery_run(tx, more) == DeliveryState::Offering
                &&& last_action(tx, more) == DeliveryActionView::Send(
                    seq![
                        OutgoingView::Verack,
                        OutgoingView::Tx(tx),
                        OutgoingView::GetData(transaction_id(tx)),
                    ],
                )
            } else {
                let outcome = DeliveryOutcome::NotConfirmed(Doubt::NotLibreRelay);
                &&& delivery_run(tx, more) == DeliveryState::Closed(outcome)
                &&& last_action(tx, more) == DeliveryActionView::Finish(outcome)
            }
        }),
{
    let event = DeliveryEventView::Received(DeliveryView::Version { services, user_agent });
    assert(trace.push((event, now_ms)).drop_last() =~= trace);
    libre_relay_is_told_by_one_bit(services, 0);
}

/// Only a node that introduced itself without the libre-relay bit is passed over as none.
pub proof fn passed_over_means_introduced_without_the_bit(
    tx: Seq<u8>,
    trace: Seq<(DeliveryEventView, u64)>,
)
    requires
        delivery_run(tx, trace) == DeliveryState::Closed(
            DeliveryOutcome::NotConfirmed(Doubt::NotLibreRelay),
        ),
    ensures
        exists|i: int|
            0 <= i < trace.len() && ((#[trigger] trace[i]).0 matches DeliveryEventView::Received(
                DeliveryView::Version { services, .. },
            ) && (services / 0x2000_0000) % 2 == 0),
    decreases trace.len(),
{
    let init = trace.drop_last();
    let last = trace.len() - 1;
    if delivery_run(tx, init) is Closed {
        passed_over_means_introduced_without_the_bit(tx, init);
        let i = choose|i: int|
            0 <= i < init.len() && ((#[trigger] init[i]).0 matches DeliveryEventView::Received(
                DeliveryView::Version { services, .. },
            ) && (services / 0x2000_0000) % 2 == 0);
        assert(trace[i] == init[i]);
    } else {
        if let DeliveryEventView::Received(DeliveryView::Version { services, .. }) = trace[last].0 {
            libre_relay_is_told_by_one_bit(services, 0);
        }
        assert(trace[last].0 matches DeliveryEventView::Received(
            DeliveryView::Version { services, .. },
        ) && (services / 0x2000_0000) % 2 == 0);
    }
}

/// Whether all of these are messages other than an introduction.
pub open spec fn no_introduction(events: Seq<(DeliveryEventView, u64)>) -> bool {
    forall|i: int|
        0 <= i < events.len() ==> ((#[trigger] events[i]).0 matches DeliveryEventView::Received(m)
            && !(m is Version))
}

/// A connection that was made, a greeting that was sent at `sent_ms`, and what came before an
/// introduction.
pub open spec fn greeted(
    connected_ms: u64,
    sent_ms: u64,
    others: Seq<(DeliveryEventView, u64)>,
) -> Seq<(DeliveryEventView, u64)> {
    seq![(DeliveryEventView::Connected, connected_ms), (DeliveryEventView::Sent, sent_ms)] + others
}

/// A delivery begins with a greeting. Whatever the node sends before it introduces itself, its
/// introduction is awaited, for what is left of five seconds after the greeting was sent.
pub proof fn a_greeted_node_is_awaited(
    tx: Seq<u8>,
    connected_ms: u64,
    sent_ms: u64,
    others: Seq<(DeliveryEventView, u64)>,
)
    requires
        no_introduction(others),
    ensures
        last_action(tx, seq![(DeliveryEventView::Connected, connected_ms)])
            == DeliveryActionView::Greet,
        delivery_run(tx, greeted(connected_ms, sent_ms, others)) is AwaitingVersion,
        others.len() == 0 ==> last_action(tx, greeted(connected_ms, sent_ms, others)) == (
        DeliveryActionView::Receive { timeout_ms: 5_000 }),
        others.len() > 0 && sent_ms + 5_000 <= u64::MAX ==> (last_action(
            tx,
            greeted(connected_ms, sent_ms, others),
        ) matches DeliveryActionView::Receive { timeout_ms } && timeout_ms == if others.last().1
            <= sent_ms + 5_000 {
            sent_ms + 5_000 - others.last().1
        } else {
            0
        }),
{
    reveal_with_fuel(delivery_run, 2);
    let one = seq![(DeliveryEventView::Connected, connected_ms)];
    assert(one.drop_last() =~= Seq::<(DeliveryEventView, u64)>::empty());
    lemma_awaited(tx, connected_ms, sent_ms, others);
    if others.len() == 0 {
        let two = greeted(connected_ms, sent_ms, others);
        assert(two.drop_last() =~= one);
        assert(two.last() == (DeliveryEventView::Sent, sent_ms));
    } else {
        let init = others.drop_last();
        assert forall|i: int| 0 <= i < init.len() implies ((#[trigger] init[i]).0 matches DeliveryEventView::Received(
            m,
        ) && !(m is Version)) by {
            assert(init[i] == others[i]);
        }
        lemma_awaited(tx, connected_ms, sent_ms, init);
        assert(greeted(connected_ms, sent_ms, others).drop_last() =~= greeted(
            connected_ms,
            sent_ms,
            init,
        ));
        assert(others[others.len() - 1] == others.last());
    }
}

/// The state in which an introduction is awaited.
proof fn lemma_awaited(
    tx: Seq<u8>,
    connected_ms: u64,
    sent_ms: u64,
    others: Seq<(DeliveryEventView, u64)>,
)
    requires
        no_introduction(others),
    ensures
        delivery_run(tx, greeted(connected_ms, sent_ms, others)) == (
        DeliveryState::AwaitingVersion { deadline_ms: later(sent_ms, 5_000) }),
    decreases others.len(),
{
    let trace = greeted(connected_ms, sent_ms, others);
    if others.len() == 0 {
        reveal_with_fuel(delivery_run, 3);
        let one = seq![(DeliveryEventView::Connected, connected_ms)];
        assert(one.drop_last() =~= Seq::<(DeliveryEventView, u64)>::empty());
        assert(trace.drop_last() =~= one);
        assert(trace.last() == (DeliveryEventView::Sent, sent_ms));
    } else {
        let init = others.drop_last();
        assert forall|i: int| 0 <= i < init.len() implies ((#[trigger] init[i]).0 matches DeliveryEventView::Received(
            m,
        ) && !(m is Version)) by {
            assert(init[i] == others[i]);
        }
        lemma_awaited(tx, connected_ms, sent_ms, init);
        assert(trace.drop_last() =~= greeted(connected_ms, sent_ms, init));
        assert(trace.last() == others[others.len() - 1]);
    }
}

/// What was offered and sent is followed by a wait of twelve seconds for a reply. Where the offer
/// cannot be sent, the delivery has failed.
pub proof fn an_offer_is_followed_by_a_wait(
    tx: Seq<u8>,
    trace: Seq<(DeliveryEventView, u64)>,
    now_ms: u64,
)
    requires
        delivery_run(tx, trace) is Offering,
    ensures
        delivery_run(tx, trace.push((DeliveryEventView::Sent, now_ms))) is AwaitingReply,
        last_action(tx, trace.push((DeliveryEventView::Sent, now_ms))) == (
        DeliveryActionView::Receive { timeout_ms: 12_000 }),
        delivery_run(tx, trace.push((DeliveryEventView::SendFailed, now_ms)))
            == DeliveryState::Closed(DeliveryOutcome::Failed(Failure::SendFailed)),
{
    assert(trace.push((DeliveryEventView::Sent, now_ms)).drop_last() =~= trace);
    assert(trace.push((DeliveryEventView::SendFailed, now_ms)).drop_last() =~= trace);
}

/// Whether a list names the transaction with the id `txid` at one of its places.
pub open spec fn names_at(list: Seq<InvItem>, txid: Seq<u8>, k: int) -> bool {
    0 <= k < list.len() && (list[k] matches InvItem::Transaction(id) && id@ == txid)
}

/// While a reply is awaited, the transaction itself or an announcement of it, at any place of a
/// list of any length, confirms the delivery; a list of what was not found that has it, an error
/// and a timeout leave it open; and anything else is passed over, with another wait of twelve
/// seconds.
pub proof fn replies_mean_what_they_say(
    tx: Seq<u8>,
    trace: Seq<(DeliveryEventView, u64)>,
    event: DeliveryEventView,
    now_ms: u64,
)
    requires
        delivery_run(tx, trace) is AwaitingReply,
        event is Received || event is ReadFailed || event is ReadTimedOut,
    ensures
        ({
            let id = transaction_id(tx);
            let more = trace.push((event, now_ms));
            let returned = event matches DeliveryEventView::Received(DeliveryView::Tx(other))
                && other == id;
            let announced = event matches DeliveryEventView::Received(DeliveryView::Inv(list))
                && exists|k: int| names_at(list, id, k);
            let not_found = event matches DeliveryEventView::Received(DeliveryView::NotFound(list))
                && exists|k: int| names_at(list, id, k);
            delivery_run(tx, more) == if returned {
                DeliveryState::Closed(DeliveryOutcome::Confirmed(Confirmation::Returned))
            } else if announced {
                DeliveryState::Closed(DeliveryOutcome::Confirmed(Confirmation::Announced))
            } else if not_found {
                DeliveryState::Closed(DeliveryOutcome::NotConfirmed(Doubt::NotFound))
            } else if event is ReadFailed {
                DeliveryState::Closed(DeliveryOutcome::NotConfirmed(Doubt::ReadFailed))
            } else if event is ReadTimedOut {
                DeliveryState::Closed(DeliveryOutcome::NotConfirmed(Doubt::TimedOut))
            } else {
                DeliveryState::AwaitingReply
            }
        }),
        delivery_run(tx, trace.push((event, now_ms))) is AwaitingReply ==> last_action(
            tx,
            trace.push((event, now_ms)),
        ) == (DeliveryActionView::Receive { timeout_ms: 12_000 }),
{
    let id = transaction_id(tx);
    assert(trace.push((event, now_ms)).drop_last() =~= trace);
    if let DeliveryEventView::Received(DeliveryView::Inv(list)) = event {
        lemma_mentions(list, id);
    }
    if let DeliveryEventView::Received(DeliveryView::NotFound(list)) = event {
        lemma_mentions(list, id);
    }
}

/// A list mentions a transaction exactly where it names it at some place.
proof fn lemma_mentions(list: Seq<InvItem>, txid: Seq<u8>)
    ensures
        mentions(list, txid) <==> exists|k: int| names_at(list, txid, k),
{
    if exists|k: int| names_at(list, txid, k) {
        let k = choose|k: int| names_at(list, txid, k);
        assert(list[k] matches InvItem::Transaction(id) && id@ == txid);
    }
    if mentions(list, txid) {
        let k = choose|i: int|
            0 <= i < list.len() && (#[trigger] list[i] matches InvItem::Transaction(id) && id@
                == txid);
        assert(names_at(list, txid, k));
    }
}

/// A reply is judged by itself, as any other reply would be: by whether it is the transaction, or
/// a list that names it.
pub proof fn a_verdict_rests_on_the_id(reply: DeliveryView, txid: Seq<u8>)
    ensures
        reply_verdict(reply, txid) == Some(DeliveryOutcome::Confirmed(Confirmation::Returned))
            <==> reply == DeliveryView::Tx(txid),
        reply_verdict(reply, txid) == Some(DeliveryOutcome::Confirmed(Confirmation::Announced))
            <==> (reply matches DeliveryView::Inv(list) && exists|k: int| names_at(list, txid, k)),
        reply_verdict(reply, txid) == Some(DeliveryOutcome::NotConfirmed(Doubt::NotFound)) <==> (
        reply matches DeliveryView::NotFound(list) && exists|k: int| names_at(list, txid, k)),
        reply_verdict(reply, txid) matches Some(outcome) ==> outcome == DeliveryOutcome::Confirmed(
            Confirmation::Returned,
        ) || outcome == DeliveryOutcome::Confirmed(Confirmation::Announced) || outcome
            == DeliveryOutcome::NotConfirmed(Doubt::NotFound),
{
    if let DeliveryView::Inv(list) = reply {
        lemma_mentions(list, txid);
    }
    if let DeliveryView::NotFound(list) = reply {
        lemma_mentions(list, txid);
    }
}

/// A delivery that cannot connect, in time or at all, cannot send the greeting, or hears nothing
/// that can be read before the node introduces itself, has failed, and with that reason.
pub proof fn failures_before_the_introduction(
    tx: Seq<u8>,
    connected_ms: u64,
    sent_ms: u64,
    others: Seq<(DeliveryEventView, u64)>,
    now_ms: u64,
)
    requires
        no_introduction(others),
    ensures
        delivery_run(tx, seq![(DeliveryEventView::ConnectFailed, now_ms)]) == DeliveryState::Closed(
            DeliveryOutcome::Failed(Failure::ConnectFailed),
        ),
        delivery_run(tx, seq![(DeliveryEventView::ConnectTimedOut, now_ms)])
            == DeliveryState::Closed(DeliveryOutcome::Failed(Failure::ConnectTimedOut)),
        delivery_run(
            tx,
            seq![
                (DeliveryEventView::Connected, connected_ms),
                (DeliveryEventView::SendFailed, now_ms),
            ],
        ) == DeliveryState::Closed(DeliveryOutcome::Failed(Failure::SendFailed)),
        delivery_run(
            tx,
            greeted(connected_ms, sent_ms, others).push((DeliveryEventView::ReadFailed, now_ms)),
        ) == DeliveryState::Closed(DeliveryOutcome::Failed(Failure::ReadFailed)),
        delivery_run(
            tx,
            greeted(connected_ms, sent_ms, others).push((DeliveryEventView::ReadTimedOut, now_ms)),
        ) == DeliveryState::Closed(DeliveryOutcome::Failed(Failure::VersionTimedOut)),
{
    reveal_with_fuel(delivery_run, 3);
    let none = Seq::<(DeliveryEventView, u64)>::empty();
    let one = seq![(DeliveryEventView::Connected, connected_ms)];
    assert(seq![(DeliveryEventView::ConnectFailed, now_ms)].drop_last() =~= none);
    assert(seq![(DeliveryEventView::ConnectTimedOut, now_ms)].drop_last() =~= none);
    assert(one.drop_last() =~= none);
    assert(seq![
        (DeliveryEventView::Connected, connected_ms),
        (DeliveryEventView::SendFailed, now_ms),
    ].drop_last() =~= one);
    lemma_awaited(tx, connected_ms, sent_ms, others);
    let trace = greeted(connected_ms, sent_ms, others);
    assert(trace.push((DeliveryEventView::ReadFailed, now_ms)).drop_last() =~= trace);
    assert(trace.push((DeliveryEventView::ReadTimedOut, now_ms)).drop_last() =~= trace);
}

/// The connection is closed exactly where the delivery is, with its outcome.
pub proof fn the_connection_is_closed_with_the_outcome(
    tx: Seq<u8>,
    trace: Seq<(DeliveryEventView, u64)>,
    outcome: DeliveryOutcome,
)
    requires
        trace.len() > 0,
    ensures
        last_action(tx, trace) == DeliveryActionView::Finish(outcome) <==> delivery_run(tx, trace)
            == DeliveryState::Closed(outcome),
{
}

/// What a delivery comes to tells whether the node confirmed, and a delivery that failed is told
/// in words: a connection or an introduction that did not come in time with the address of the
/// node, anything else as the network put it.
pub proof fn deliveries_are_told_in_words(
    how: Confirmation,
    doubt: Doubt,
    endpoint: Endpoint,
    name: Seq<char>,
    socket: Seq<char>,
    detail: Seq<char>,
)
    ensures
        ({
            let ip = PeerAddress::Ip(endpoint);
            let onion = PeerAddress::Onion(name);
            let failed = |f: Failure, a: PeerAddress|
                delivery_result(DeliveryOutcome::Failed(f), a, socket, detail);
            &&& delivery_result(DeliveryOutcome::Confirmed(how), ip, socket, detail) == Ok::<
                bool,
                Seq<char>,
            >(true)
            &&& delivery_result(DeliveryOutcome::Confirmed(how), onion, socket, detail) == Ok::<
                bool,
                Seq<char>,
            >(true)
            &&& delivery_result(DeliveryOutcome::NotConfirmed(doubt), ip, socket, detail) == Ok::<
                bool,
                Seq<char>,
            >(false)
            &&& delivery_result(DeliveryOutcome::NotConfirmed(doubt), onion, socket, detail)
                == Ok::<bool, Seq<char>>(false)
            &&& failed(Failure::ConnectTimedOut, ip) == Err::<bool, Seq<char>>(
                "timeout connecting to "@ + socket,
            )
            &&& failed(Failure::ConnectTimedOut, onion) == Err::<bool, Seq<char>>(
                "timeout connecting to "@ + name,
            )
            &&& failed(Failure::VersionTimedOut, ip) == Err::<bool, Seq<char>>(
                "Timeout waiting for peer Version from "@ + ("Ip("@ + socket + ")"@),
            )
            &&& failed(Failure::VersionTimedOut, onion) == Err::<bool, Seq<char>>(
                "Timeout waiting for peer Version from "@ + ("Onion("@ + text_shown(name) + ")"@),
            )
            &&& forall|a: PeerAddress|
                #![trigger failed(Failure::ConnectFailed, a)]
                #![trigger failed(Failure::SendFailed, a)]
                #![trigger failed(Failure::ReadFailed, a)]
                failed(Failure::ConnectFailed, a) == Err::<bool, Seq<char>>(detail) && failed(
                    Failure::SendFailed,
                    a,
                ) == Err::<bool, Seq<char>>(detail) && failed(Failure::ReadFailed, a) == Err::<
                    bool,
                    Seq<char>,
                >(detail)
        }),
        complaint_words(Ok(true)) is None,
        complaint_words(Ok(false)) == Some("No Tx confirmation, rejected, or skipped by peer."@),
        complaint_words(Err(detail)) == Some(detail),
{
}

/// At most two attempts are made at a node. A second is made exactly where the first ended in an
/// error or a timeout of the network, before or after the offer.
pub proof fn a_second_attempt_follows_trouble(attempts: Seq<Option<DeliveryOutcome>>)
    requires
        tried_to_the_end(attempts),
    ensures
        attempts.len() == 1 || attempts.len() == 2,
        attempts.len() == 2 <==> match attempts[0] {
            Some(DeliveryOutcome::Failed(_)) => true,
            Some(DeliveryOutcome::NotConfirmed(doubt)) => doubt == Doubt::ReadFailed || doubt
                == Doubt::TimedOut,
            _ => false,
        },
{
    trouble_is_tried_again(attempts);
    if attempts.len() > 1 {
        assert(wants_another_attempt(attempts[0], 1));
    }
}

/// Events and actions keep all that they hold, messages and lists of any length.
pub proof fn events_and_actions_keep_what_they_hold(
    message: DeliveryMessage,
    list: Vec<Outgoing>,
    i: int,
    timeout_ms: u64,
    outcome: DeliveryOutcome,
)
    ensures
        DeliveryEvent::Connected@ == DeliveryEventView::Connected,
        DeliveryEvent::ConnectFailed@ == DeliveryEventView::ConnectFailed,
        DeliveryEvent::ConnectTimedOut@ == DeliveryEventView::ConnectTimedOut,
        DeliveryEvent::Sent@ == DeliveryEventView::Sent,
        DeliveryEvent::SendFailed@ == DeliveryEventView::SendFailed,
        DeliveryEvent::ReadFailed@ == DeliveryEventView::ReadFailed,
        DeliveryEvent::ReadTimedOut@ == DeliveryEventView::ReadTimedOut,
        DeliveryAction::Greet@ == DeliveryActionView::Greet,
        (DeliveryAction::Receive { timeout_ms })@ == (DeliveryActionView::Receive { timeout_ms }),
        DeliveryAction::Finish(outcome)@ == DeliveryActionView::Finish(outcome),
        DeliveryEvent::Received(message)@ == DeliveryEventView::Received(message@),
        DeliveryAction::Send(list)@ matches DeliveryActionView::Send(sent) && sent.len()
            == list@.len() && (0 <= i < list@.len() ==> sent[i] == list@[i]@),
{
}

} // verus!
