//! Answering a request to broadcast a transaction.

use vstd::prelude::*;
use vstd::utf8::encode_utf8;

use crate::address::PeerAddress;
use crate::delivery::{
    confirmed_means_offered_and_shown, delivery_run, introduces_libre_relay, last_action,
    network_trouble, offer, shows_transaction, tried_to_the_end, trouble_is_tried_again,
    DeliveryActionView, DeliveryEventView, DeliveryOutcome, DeliveryState, MAX_ATTEMPTS,
};
use crate::peers::{PeerCache, PeerSet};
use crate::text::{
    decimal, decimal_text, hex_decoding, hex_error_display, same_but_for_case, spells, HexError,
};
use crate::transaction::{
    a_text_is_the_transaction_that_it_spells, a_text_that_spells_nothing_is_not_hexadecimal,
    is_id_text, is_transaction, letter_case_of_a_transaction_does_not_matter, parsed_transaction,
    same_but_for_witnesses, transaction_id, transaction_refusal, tx_error_message, txid_hex,
    txid_hex_is_an_id_text, witnesses_do_not_matter_to_the_id, Transaction,
};
use crate::wire::OutgoingView;

verus! {

/// The status of an answer to a request that cannot be carried out as it is.
pub const BAD_REQUEST: u16 = 400;

/// The status of an answer to a request that went wrong on this side.
pub const INTERNAL_SERVER_ERROR: u16 = 500;

/// A request to broadcast a transaction, given in hexadecimal.
#[derive(Clone, Debug, PartialEq, Eq)]
pub struct BroadcastRequest {
    pub tx: String,
}

/// The answer to a request that was carried out.
#[derive(Clone, Debug, PartialEq, Eq)]
pub struct BroadcastResponse {
    pub success: bool,
    pub message: String,
    pub txid: String,
    pub success_count: usize,
    pub total_peers: usize,
}

/// A [`BroadcastResponse`] with its texts as characters.
pub struct ResponseView {
    pub success: bool,
    pub message: Seq<char>,
    pub txid: Seq<char>,
    pub success_count: usize,
    pub total_peers: usize,
}

impl View for BroadcastResponse {
    type V = ResponseView;

    open spec fn view(&self) -> ResponseView {
        ResponseView {
            success: self.success,
            message: self.message@,
            txid: self.txid@,
            success_count: self.success_count,
            total_peers: self.total_peers,
        }
    }
}

/// What is said of a request that was not carried out.
#[derive(Clone, Debug, PartialEq, Eq)]
pub struct ErrorResponse {
    pub error: String,
}

/// The answer to a request that was not carried out.
#[derive(Clone, Debug, PartialEq, Eq)]
pub struct Refusal {
    pub status: u16,
    pub body: ErrorResponse,
}

/// A [`Refusal`] with its text as characters.
pub struct RefusalView {
    pub status: u16,
    pub error: Seq<char>,
}

impl View for Refusal {
    type V = RefusalView;

    open spec fn view(&self) -> RefusalView {
        RefusalView { status: self.status, error: self.body.error@ }
    }
}

/// What to do next for a request.
#[derive(Debug)]
pub enum BroadcastStep {
    Refuse(Refusal),
    Reply(BroadcastResponse),
    /// Look for libre-relay nodes.
    Discover(Transaction),
    /// Hand the transaction to each of the nodes.
    Deliver { tx: Transaction, peers: PeerSet },
}

/// A [`BroadcastStep`] with its contents as sequences and sets.
pub enum BroadcastStepView {
    Refuse(RefusalView),
    Reply(ResponseView),
    Discover(Seq<u8>),
    Deliver { tx: Seq<u8>, peers: Set<PeerAddress> },
}

impl View for BroadcastStep {
    type V = BroadcastStepView;

    open spec fn view(&self) -> BroadcastStepView {
        match *self {
            BroadcastStep::Refuse(refusal) => BroadcastStepView::Refuse(refusal@),
            BroadcastStep::Reply(response) => BroadcastStepView::Reply(response@),
            BroadcastStep::Discover(tx) => BroadcastStepView::Discover(tx@),
            BroadcastStep::Deliver { tx, peers } => BroadcastStepView::Deliver {
                tx: tx@,
                peers: peers@,
            },
        }
    }
}

/// The answer where no libre-relay node is known.
pub open spec fn reply_without_peers(txid: Seq<char>) -> ResponseView {
    ResponseView {
        success: false,
        message: "No libre relay nodes found"@,
        txid,
        success_count: 0,
        total_peers: 0,
    }
}

/// The answer where `success_count` of `total_peers` nodes confirmed the transaction.
pub open spec fn reply_after_delivery(
    txid: Seq<char>,
    success_count: usize,
    total_peers: usize,
) -> ResponseView {
    ResponseView {
        success: success_count > 0,
        message: if success_count > 0 {
            "Transaction broadcasted to "@ + decimal(success_count as nat) + " libre relay nodes"@
        } else {
            "No libre relay nodes accepted the transaction. TX may already be in a block or is invalid."@
        },
        txid,
        success_count,
        total_peers,
    }
}

/// What to do with a transaction once the nodes are known.
pub open spec fn step_with_peers(tx: Seq<u8>, peers: Set<PeerAddress>) -> BroadcastStepView {
    if peers == Set::<PeerAddress>::empty() {
        BroadcastStepView::Reply(reply_without_peers(txid_hex(transaction_id(tx))))
    } else {
        BroadcastStepView::Deliver { tx, peers }
    }
}

/// What to do first for a request, where `usable` are the nodes that are remembered.
pub open spec fn first_step(
    text: Seq<char>,
    usable: Option<Set<PeerAddress>>,
) -> BroadcastStepView {
    match parsed_transaction(text) {
        Err(e) => BroadcastStepView::Refuse(
            RefusalView { status: BAD_REQUEST, error: tx_error_message(e) },
        ),
        Ok(tx) => match usable {
            Some(peers) => step_with_peers(tx, peers),
            None => BroadcastStepView::Discover(tx),
        },
    }
}

/// A refusal with a status and a text.
fn refuse(status: u16, error: String) -> (step: BroadcastStep)
    ensures
        step@ == BroadcastStepView::Refuse(RefusalView { status, error: error@ }),
{
    BroadcastStep::Refuse(Refusal { status, body: ErrorResponse { error } })
}

/// Goes on with a transaction once the nodes are known.
fn go_on(tx: Transaction, peers: PeerSet) -> (step: BroadcastStep)
    ensures
        step@ == step_with_peers(tx@, peers@),
        step@ matches BroadcastStepView::Reply(reply) ==> is_id_text(reply.txid),
{
    if peers.is_empty() {
        BroadcastStep::Reply(
            BroadcastResponse {
                success: false,
                message: "No libre relay nodes found".to_owned(),
                txid: tx.txid_text(),
                success_count: 0,
                total_peers: 0,
            },
        )
    } else {
        BroadcastStep::Deliver { tx, peers }
    }
}

/// Takes up a request: a text that is no transaction is refused, and nodes are looked for only
/// where none can be used from memory.
pub fn broadcast_begin(request: &BroadcastRequest, cache: &PeerCache, now_ns: u128) -> (step:
    BroadcastStep)
    ensures
        step@ == first_step(request.tx@, cache.usable(now_ns)),
        step@ matches BroadcastStepView::Reply(reply) ==> is_id_text(reply.txid),
{
    match Transaction::from_hex(request.tx.as_str()) {
        Err(e) => refuse(BAD_REQUEST, e.message()),
        Ok(tx) => match cache.get_or_discover_libre_peers(now_ns) {
            Some(peers) => go_on(tx, peers),
            None => BroadcastStep::Discover(tx),
        },
    }
}

/// Goes on with a request after looking for nodes, or refuses it where that went wrong.
pub fn broadcast_discovered(tx: Transaction, found: Result<PeerSet, String>) -> (step:
    BroadcastStep)
    ensures
        step@ == match found {
            Ok(peers) => step_with_peers(tx@, peers@),
            Err(text) => BroadcastStepView::Refuse(
                RefusalView { status: BAD_REQUEST, error: text@ },
            ),
        },
        step@ matches BroadcastStepView::Reply(reply) ==> is_id_text(reply.txid),
{
    match found {
        Ok(peers) => go_on(tx, peers),
        Err(text) => refuse(BAD_REQUEST, text),
    }
}

/// How many deliveries were confirmed. A delivery whose task was lost has no outcome.
pub open spec fn confirmed_count(outcomes: Seq<Option<DeliveryOutcome>>) -> nat
    decreases outcomes.len(),
{
    if outcomes.len() == 0 {
        0
    } else {
        confirmed_count(outcomes.drop_last()) + (if outcomes.last() matches Some(
            DeliveryOutcome::Confirmed(_),
        ) {
            1nat
        } else {
            0nat
        })
    }
}

/// No more deliveries are confirmed than were made.
pub proof fn no_more_confirmed_than_delivered(outcomes: Seq<Option<DeliveryOutcome>>)
    ensures
        confirmed_count(outcomes) <= outcomes.len(),
    decreases outcomes.len(),
{
    if outcomes.len() > 0 {
        no_more_confirmed_than_delivered(outcomes.drop_last());
    }
}

/// Counts the deliveries that were confirmed.
pub fn broadcast_to_peers(outcomes: &Vec<Option<DeliveryOutcome>>) -> (n: usize)
    ensures
        n == confirmed_count(outcomes@),
{
    let mut n: usize = 0;
    let mut i: usize = 0;
    while i < outcomes.len()
        invariant
            i <= outcomes.len(),
            n <= i,
            n == confirmed_count(outcomes@.take(i as int)),
        decreases outcomes.len() - i,
    {
        assert(outcomes@.take(i + 1).drop_last() =~= outcomes@.take(i as int));
        if let Some(DeliveryOutcome::Confirmed(_)) = &outcomes[i] {
            n = n + 1;
        }
        i = i + 1;
    }
    assert(outcomes@.take(i as int) =~= outcomes@);
    n
}

/// Writes the answer where `success_count` of `total_peers` nodes confirmed the transaction.
pub fn delivery_reply(txid: String, success_count: usize, total_peers: usize) -> (r:
    BroadcastResponse)
    ensures
        r@ == reply_after_delivery(txid@, success_count, total_peers),
{
    let success = success_count > 0;
    let message = if success {
        let mut s = "Transaction broadcasted to ".to_owned();
        let count = decimal_text(success_count);
        s.append(count.as_str());
        s.append(" libre relay nodes");
        s
    } else {
        "No libre relay nodes accepted the transaction. TX may already be in a block or is invalid.".to_owned()
    };
    BroadcastResponse { success, message, txid, success_count, total_peers }
}

/// Ends a request after the transaction was handed to `total_peers` nodes, with the number of
/// those that confirmed it, or with what went wrong.
pub fn broadcast_finish(tx: &Transaction, total_peers: usize, delivered: Result<usize, String>) -> (
step: BroadcastStep)
    ensures
        step@ == match delivered {
            Ok(success_count) => BroadcastStepView::Reply(
                reply_after_delivery(txid_hex(transaction_id(tx@)), success_count, total_peers),
            ),
            Err(text) => BroadcastStepView::Refuse(
                RefusalView {
                    status: INTERNAL_SERVER_ERROR,
                    error: "Failed to broadcast transaction: "@ + text@,
                },
            ),
        },
        step@ matches BroadcastStepView::Reply(reply) ==> is_id_text(reply.txid),
{
    match delivered {
        Ok(success_count) => BroadcastStep::Reply(
            delivery_reply(tx.txid_text(), success_count, total_peers),
        ),
        Err(text) => {
            let mut error = "Failed to broadcast transaction: ".to_owned();
            error.append(text.as_str());
            refuse(INTERNAL_SERVER_ERROR, error)
        },
    }
}

/// Ends a request after the transaction was handed to each of `peers`, with what came of the
/// deliveries, or with what went wrong.
pub fn broadcast_delivered(
    tx: &Transaction,
    peers: &PeerSet,
    delivered: Result<Vec<Option<DeliveryOutcome>>, String>,
) -> (step: BroadcastStep)
    ensures
        step@ == match delivered {
            Ok(outcomes) => BroadcastStepView::Reply(
                reply_after_delivery(
                    txid_hex(transaction_id(tx@)),
                    confirmed_count(outcomes@) as usize,
                    peers@.len() as usize,
                ),
            ),
            Err(text) => BroadcastStepView::Refuse(
                RefusalView {
                    status: INTERNAL_SERVER_ERROR,
                    error: "Failed to broadcast transaction: "@ + text@,
                },
            ),
        },
        step@ matches BroadcastStepView::Reply(reply) ==> {
            &&& is_id_text(reply.txid)
            &&& reply.total_peers == peers@.len()
            &&& delivered matches Ok(outcomes) && reply.success_count == confirmed_count(outcomes@)
                && (outcomes@.len() <= peers@.len() ==> reply.success_count <= reply.total_peers)
        },
{
    let total_peers = peers.len();
    match delivered {
        Ok(outcomes) => {
            proof {
                no_more_confirmed_than_delivered(outcomes@);
            }
            broadcast_finish(tx, total_peers, Ok(broadcast_to_peers(&outcomes)))
        },
        Err(text) => broadcast_finish(tx, total_peers, Err(text)),
    }
}

/// The answer to a request for the state of the service.
#[derive(Clone, Debug, PartialEq, Eq)]
pub struct HealthReport {
    pub status: String,
    pub service: String,
    pub version: String,
}

/// Reports that the service is up, and in which version.
pub fn health_check(version: &str) -> (r: HealthReport)
    ensures
        r.status@ == "healthy"@,
        r.service@ == "tx-pigeon"@,
        r.version@ == version@,
{
    HealthReport {
        status: "healthy".to_owned(),
        service: "tx-pigeon".to_owned(),
        version: version.to_owned(),
    }
}

/// The answer to a request to forget the nodes.
#[derive(Clone, Debug, PartialEq, Eq)]
pub struct CacheCleared {
    pub success: bool,
    pub message: String,
}

/// Forgets the nodes, so that they are looked for again.
pub fn clear_cache(cache: &mut PeerCache) -> (r: CacheCleared)
    ensures
        forall|now_ns: u128| final(cache).usable(now_ns) is None,
        r.success,
        r.message@ == "Peer cache cleared successfully"@,
{
    cache.clear();
    CacheCleared { success: true, message: "Peer cache cleared successfully".to_owned() }
}

/// A request is refused at once exactly where its text is no transaction, and then with status
/// 400; nothing is looked for and nothing is sent on its account.
pub proof fn only_a_text_that_is_no_transaction_is_refused(
    text: Seq<char>,
    usable: Option<Set<PeerAddress>>,
)
    ensures
        first_step(text, usable) is Refuse <==> parsed_transaction(text) is Err,
        first_step(text, usable) matches BroadcastStepView::Refuse(refusal) ==> refusal.status
            == BAD_REQUEST,
        first_step(text, usable) matches BroadcastStepView::Discover(tx) ==> is_transaction(tx),
        first_step(text, usable) matches BroadcastStepView::Deliver { tx, .. } ==> is_transaction(
            tx,
        ),
{
}

/// While nodes are remembered, no request makes the service look for nodes.
pub proof fn remembered_peers_are_used(text: Seq<char>, usable: Option<Set<PeerAddress>>)
    ensures
        first_step(text, usable) is Discover <==> parsed_transaction(text) is Ok && usable is None,
        first_step(text, usable) matches BroadcastStepView::Deliver { peers, .. } ==> usable
            == Some(peers),
{
}

/// What is offered to nodes on account of a request is the very transaction of the request: the
/// bytes that its text spells.
pub proof fn the_requested_transaction_is_offered(
    text: Seq<char>,
    usable: Option<Set<PeerAddress>>,
)
    ensures
        match first_step(text, usable) {
            BroadcastStepView::Deliver { tx, .. } | BroadcastStepView::Discover(tx) => {
                &&& hex_decoding(encode_utf8(text)) == Ok::<Seq<u8>, HexError>(tx)
                &&& offer(tx).contains(OutgoingView::Tx(tx))
                &&& forall|other: Seq<u8>|
                    offer(tx).contains(OutgoingView::Tx(other)) ==> other == tx
            },
            _ => true,
        },
{
    if let Ok(tx) = parsed_transaction(text) {
        assert(offer(tx)[1] == OutgoingView::Tx(tx));
    }
}

/// A request that gives a transaction is answered alike, whatever the case of its letters.
pub proof fn letter_case_of_a_request_does_not_matter(
    text1: Seq<char>,
    text2: Seq<char>,
    usable: Option<Set<PeerAddress>>,
)
    requires
        same_but_for_case(text1, text2),
        parsed_transaction(text1) is Ok,
    ensures
        first_step(text1, usable) == first_step(text2, usable),
{
    letter_case_of_a_transaction_does_not_matter(text1, text2);
}

/// Transactions that are the same but for their witnesses are answered with the same id,
/// sixty-four lower-case hexadecimal digits: the id does not tell of the witnesses.
pub proof fn answers_do_not_tell_of_witnesses(
    tx1: Transaction,
    tx2: Transaction,
    success_count1: usize,
    success_count2: usize,
    total_peers1: usize,
    total_peers2: usize,
)
    requires
        tx1.well_formed(),
        tx2.well_formed(),
        same_but_for_witnesses(tx1@, tx2@),
    ensures
        reply_without_peers(txid_hex(transaction_id(tx1@))) == reply_without_peers(
            txid_hex(transaction_id(tx2@)),
        ),
        reply_after_delivery(txid_hex(transaction_id(tx1@)), success_count1, total_peers1).txid
            == reply_after_delivery(
            txid_hex(transaction_id(tx2@)),
            success_count2,
            total_peers2,
        ).txid,
        is_id_text(txid_hex(transaction_id(tx1@))),
{
    witnesses_do_not_matter_to_the_id(tx1, tx2);
    txid_hex_is_an_id_text(transaction_id(tx1@));
}

/// A node counts as one that confirmed exactly where it confirmed in some attempt. One that the
/// network kept from being reached in its first attempt is tried again before it is left out of
/// the count.
pub proof fn a_node_is_tried_again_before_it_is_left_out(
    attempts: Seq<Seq<Option<DeliveryOutcome>>>,
    outcomes: Seq<Option<DeliveryOutcome>>,
    k: int,
)
    requires
        outcomes.len() == attempts.len(),
        forall|n: int|
            0 <= n < outcomes.len() ==> tried_to_the_end(#[trigger] attempts[n]) && outcomes[n]
                == attempts[n].last(),
        0 <= k < outcomes.len(),
    ensures
        outcomes[k] matches Some(DeliveryOutcome::Confirmed(_)) <==> exists|i: int|
            0 <= i < attempts[k].len() && (#[trigger] attempts[k][i] matches Some(
                DeliveryOutcome::Confirmed(_),
            )),
        attempts[k][0] matches Some(outcome) && network_trouble(outcome) ==> attempts[k].len()
            >= 2,
        attempts[k].len() <= MAX_ATTEMPTS,
{
    trouble_is_tried_again(attempts[k]);
    assert(attempts[k].last() == attempts[k][attempts[k].len() - 1]);
}

/// Where deliveries were confirmed, one of them was.
proof fn lemma_some_confirmed(outcomes: Seq<Option<DeliveryOutcome>>) -> (k: int)
    requires
        confirmed_count(outcomes) > 0,
    ensures
        0 <= k < outcomes.len(),
        outcomes[k] matches Some(DeliveryOutcome::Confirmed(_)),
    decreases outcomes.len(),
{
    if outcomes.last() matches Some(DeliveryOutcome::Confirmed(_)) {
        outcomes.len() - 1
    } else {
        lemma_some_confirmed(outcomes.drop_last())
    }
}

/// An answer that tells of success rests on a libre-relay node to which the transaction was
/// offered and which then sent it back or announced it. The number of confirmations in an answer
/// is at most the number of nodes in it.
pub proof fn success_rests_on_a_confirmation(
    tx: Seq<u8>,
    traces: Seq<Seq<(DeliveryEventView, u64)>>,
    outcomes: Seq<Option<DeliveryOutcome>>,
    txid: Seq<char>,
    success_count: usize,
    total_peers: usize,
)
    requires
        outcomes.len() == traces.len() == total_peers,
        forall|k: int|
            0 <= k < outcomes.len() ==> (#[trigger] outcomes[k] matches Some(outcome)
                ==> delivery_run(tx, traces[k]) == DeliveryState::Closed(outcome)),
        success_count == confirmed_count(outcomes),
    ensures
        success_count <= total_peers,
        reply_after_delivery(txid, success_count, total_peers).success ==> exists|
            k: int,
            i: int,
            j: int,
        |
            #![trigger traces[k][i], traces[k][j]]
            {
                &&& 0 <= k < traces.len()
                &&& 0 <= i < j < traces[k].len()
                &&& introduces_libre_relay(traces[k][i].0)
                &&& last_action(tx, traces[k].take(i + 1)) == DeliveryActionView::Send(offer(tx))
                &&& shows_transaction(traces[k][j].0, tx)
            },
{
    no_more_confirmed_than_delivered(outcomes);
    if success_count > 0 {
        let k = lemma_some_confirmed(outcomes);
        confirmed_means_offered_and_shown(tx, traces[k]);
        let trace = traces[k];
        let (i, j) = choose|i: int, j: int|
            #![trigger trace[i], trace[j]]
            {
                &&& 0 <= i < j < trace.len()
                &&& introduces_libre_relay(trace[i].0)
                &&& last_action(tx, trace.take(i + 1)) == DeliveryActionView::Send(offer(tx))
                &&& shows_transaction(trace[j].0, tx)
            };
        assert(introduces_libre_relay(traces[k][i].0) && shows_transaction(traces[k][j].0, tx));
    }
}

/// The answer after delivery tells of success exactly where at least one delivery was confirmed,
/// however many nodes there were. It then says how many confirmed, and otherwise that none did.
/// It repeats the id and both numbers as they are.
pub proof fn one_confirmation_is_success(
    txid: Seq<char>,
    success_count: usize,
    total_peers: usize,
    other_total: usize,
)
    ensures
        ({
            let reply = reply_after_delivery(txid, success_count, total_peers);
            let other = reply_after_delivery(txid, success_count, other_total);
            &&& reply.success <==> reply.success_count >= 1
            &&& reply.success_count == success_count
            &&& reply.total_peers == total_peers
            &&& reply.txid == txid
            &&& success_count >= 1 ==> reply.message == "Transaction broadcasted to "@ + decimal(
                success_count as nat,
            ) + " libre relay nodes"@
            &&& success_count == 0 ==> reply.message
                == "No libre relay nodes accepted the transaction. TX may already be in a block or is invalid."@
            &&& reply.success == other.success && reply.message == other.message
        }),
{
}

/// Confirmations add up: those of two lots of deliveries are those of all of them, and a single
/// delivery counts for one where it was confirmed, in whichever way, and for none otherwise.
pub proof fn confirmations_add_up(
    outcomes1: Seq<Option<DeliveryOutcome>>,
    outcomes2: Seq<Option<DeliveryOutcome>>,
    outcome: Option<DeliveryOutcome>,
)
    ensures
        confirmed_count(outcomes1 + outcomes2) == confirmed_count(outcomes1) + confirmed_count(
            outcomes2,
        ),
        confirmed_count(seq![outcome]) == match outcome {
            Some(DeliveryOutcome::Confirmed(_)) => 1nat,
            Some(DeliveryOutcome::NotConfirmed(_)) => 0nat,
            Some(DeliveryOutcome::Failed(_)) => 0nat,
            None => 0nat,
        },
    decreases outcomes2.len(),
{
    reveal_with_fuel(confirmed_count, 2);
    assert(seq![outcome].drop_last() =~= Seq::<Option<DeliveryOutcome>>::empty());
    if outcomes2.len() == 0 {
        assert(outcomes1 + outcomes2 =~= outcomes1);
    } else {
        confirmations_add_up(outcomes1, outcomes2.drop_last(), outcome);
        assert((outcomes1 + outcomes2).drop_last() =~= outcomes1 + outcomes2.drop_last());
        assert((outcomes1 + outcomes2).last() == outcomes2.last());
    }
}

/// A request whose text spells bytes that `bitcoin` takes for a transaction is never refused:
/// those very bytes are handed to all the nodes that are remembered, or nodes are looked for to
/// hand them to. Only where it is remembered that there are none is it answered at once.
pub proof fn a_transaction_is_taken_up(
    text: Seq<char>,
    bytes: Seq<u8>,
    usable: Option<Set<PeerAddress>>,
)
    requires
        spells(text, bytes),
        transaction_refusal(bytes) is None,
    ensures
        !(first_step(text, usable) is Refuse),
        usable is None ==> first_step(text, usable) == BroadcastStepView::Discover(bytes),
        usable matches Some(peers) ==> {
            &&& (exists|a: PeerAddress| peers.contains(a)) ==> first_step(text, usable) == (
            BroadcastStepView::Deliver { tx: bytes, peers })
            &&& !(exists|a: PeerAddress| peers.contains(a)) ==> (first_step(
                text,
                usable,
            ) matches BroadcastStepView::Reply(reply) && !reply.success && reply.message
                == "No libre relay nodes found"@ && reply.txid == txid_hex(transaction_id(bytes))
                && reply.success_count == 0 && reply.total_peers == 0)
        },
{
    a_text_is_the_transaction_that_it_spells(text, bytes);
    if let Some(peers) = usable {
        if !(exists|a: PeerAddress| peers.contains(a)) {
            assert(peers =~= Set::<PeerAddress>::empty());
        }
    }
}

/// A request whose text spells bytes that `bitcoin` refuses, or no bytes, is refused with status
/// 400 and the reason, whatever nodes are remembered.
pub proof fn what_is_no_transaction_is_refused(
    text: Seq<char>,
    bytes: Seq<u8>,
    reason: Seq<char>,
    usable: Option<Set<PeerAddress>>,
)
    ensures
        spells(text, bytes) && transaction_refusal(bytes) == Some(reason) ==> first_step(
            text,
            usable,
        ) == BroadcastStepView::Refuse(
            RefusalView { status: 400, error: "Invalid transaction format: "@ + reason },
        ),
        (forall|b: Seq<u8>| !spells(text, b)) ==> (hex_decoding(encode_utf8(text)) matches Err(e)
            && first_step(text, usable) == BroadcastStepView::Refuse(
            RefusalView { status: 400, error: "Invalid hex string: "@ + hex_error_display(e) },
        )),
{
    if spells(text, bytes) {
        a_text_is_the_transaction_that_it_spells(text, bytes);
    }
    if forall|b: Seq<u8>| !spells(text, b) {
        a_text_that_spells_nothing_is_not_hexadecimal(text);
    }
}

/// Once nodes are known, the transaction is handed to all of them; where there are none, that is
/// the answer.
pub proof fn known_nodes_are_all_used(tx: Seq<u8>, peers: Set<PeerAddress>)
    ensures
        (exists|a: PeerAddress| peers.contains(a)) ==> step_with_peers(tx, peers) == (
        BroadcastStepView::Deliver { tx, peers }),
        !(exists|a: PeerAddress| peers.contains(a)) ==> (step_with_peers(
            tx,
            peers,
        ) matches BroadcastStepView::Reply(reply) && !reply.success && reply.message
            == "No libre relay nodes found"@ && reply.txid == txid_hex(transaction_id(tx))
            && reply.success_count == 0 && reply.total_peers == 0),
{
    if !(exists|a: PeerAddress| peers.contains(a)) {
        assert(peers =~= Set::<PeerAddress>::empty());
    }
}

/// Answers and steps keep all that they hold.
pub proof fn answers_keep_what_they_hold(
    response: BroadcastResponse,
    refusal: Refusal,
    tx: Transaction,
    peers: PeerSet,
)
    ensures
        response@.success == response.success,
        response@.message == response.message@,
        response@.txid == response.txid@,
        response@.success_count == response.success_count,
        response@.total_peers == response.total_peers,
        refusal@.status == refusal.status,
        refusal@.error == refusal.body.error@,
        BroadcastStep::Refuse(refusal)@ == BroadcastStepView::Refuse(refusal@),
        BroadcastStep::Reply(response)@ == BroadcastStepView::Reply(response@),
        BroadcastStep::Discover(tx)@ == BroadcastStepView::Discover(tx@),
        (BroadcastStep::Deliver { tx, peers })@ == (BroadcastStepView::Deliver {
            tx: tx@,
            peers: peers@,
        }),
{
}

} // verus!
