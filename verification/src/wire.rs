//! Messages of the Bitcoin network and the frames that carry them.

use bitcoin::consensus::Decodable;
use bitcoin::io::Cursor;
use bitcoin::p2p::address::AddrV2::{Ipv4, Ipv6, TorV3};
use bitcoin::p2p::message::NetworkMessage::{self, Addr, AddrV2, Inv, NotFound, Tx, Verack, Version};
use bitcoin::p2p::message::RawNetworkMessage;
use bitcoin::p2p::message_blockdata::Inventory;
use bitcoin::p2p::{Address, Magic, ServiceFlags};
use vstd::prelude::*;
use vstd::utf8::encode_utf8;

use crate::address::{AddrEntry, AddrV2Entry, AddrV2Host};
use crate::services::{announces_libre_relay, NODE_LIBRE_RELAY, NODE_NETWORK, NODE_WITNESS};
use crate::transaction::{is_transaction, transaction_encoding, transaction_id, Transaction};

verus! {

/// The bytes with which every frame of the main network begins.
pub const MAGIC: [u8; 4] = [0xF9, 0xBE, 0xB4, 0xD9];

/// The length of the largest frame that can be read back.
pub const MAX_FRAME_LEN: usize = 5_000_000;

/// The `version` message, with which each side introduces itself.
#[derive(Clone, Debug, PartialEq, Eq)]
pub struct VersionMessage {
    pub version: u32,
    pub services: u64,
    pub timestamp: i64,
    pub receiver: AddrEntry,
    pub sender: AddrEntry,
    pub nonce: u64,
    pub user_agent: String,
    pub start_height: i32,
    pub relay: bool,
}

/// A [`VersionMessage`] with its user agent as characters.
pub struct VersionView {
    pub version: u32,
    pub services: u64,
    pub timestamp: i64,
    pub receiver: AddrEntry,
    pub sender: AddrEntry,
    pub nonce: u64,
    pub user_agent: Seq<char>,
    pub start_height: i32,
    pub relay: bool,
}

impl View for VersionMessage {
    type V = VersionView;

    open spec fn view(&self) -> VersionView {
        VersionView {
            version: self.version,
            services: self.services,
            timestamp: self.timestamp,
            receiver: self.receiver,
            sender: self.sender,
            nonce: self.nonce,
            user_agent: self.user_agent@,
            start_height: self.start_height,
            relay: self.relay,
        }
    }
}

/// A message that is sent to a node after the introduction.
#[derive(Debug)]
pub enum Outgoing {
    Verack,
    SendAddrV2,
    GetAddr,
    Tx(Transaction),
    /// Asks for the transaction with this id.
    GetData([u8; 32]),
}

/// A message that is sent to a node, with its contents as sequences.
pub enum OutgoingView {
    Version(VersionView),
    Verack,
    SendAddrV2,
    GetAddr,
    Tx(Seq<u8>),
    GetData(Seq<u8>),
}

impl View for Outgoing {
    type V = OutgoingView;

    open spec fn view(&self) -> OutgoingView {
        match *self {
            Outgoing::Verack => OutgoingView::Verack,
            Outgoing::SendAddrV2 => OutgoingView::SendAddrV2,
            Outgoing::GetAddr => OutgoingView::GetAddr,
            Outgoing::Tx(tx) => OutgoingView::Tx(tx@),
            Outgoing::GetData(txid) => OutgoingView::GetData(txid@),
        }
    }
}

/// An item of an `inv` or `notfound` message.
#[derive(Clone, Copy, Debug, PartialEq, Eq)]
pub enum InvItem {
    /// A transaction, by its id.
    Transaction([u8; 32]),
    Other,
}

/// What there is to read in a message from a node.
pub enum MessageView {
    Version(VersionView),
    Verack,
    SendAddrV2,
    GetAddr,
    /// The items that are asked for: each a transaction, by its id, or something else.
    GetData(Seq<Option<Seq<u8>>>),
    Addr(Seq<AddrEntry>),
    AddrV2(Seq<AddrV2Entry>),
    Inv(Seq<InvItem>),
    NotFound(Seq<InvItem>),
    /// A transaction, by its encoding.
    Tx(Seq<u8>),
    Other,
}

/// What there is to read in a frame.
pub struct FrameView {
    pub magic: Seq<u8>,
    pub message: MessageView,
}

/// The frame of the network `magic` that carries `message`.
pub uninterp spec fn network_frame(magic: Seq<u8>, message: OutgoingView) -> Seq<u8>;

/// The magic bytes of `frame` and the message that it carries, or the text of the error of
/// `bitcoin::p2p::message::RawNetworkMessage::consensus_decode`.
pub uninterp spec fn decoded_message(frame: Seq<u8>) -> Result<FrameView, Seq<char>>;

/// Whether reading `frame` gives `message`, on the network `magic`.
pub open spec fn carries(frame: Seq<u8>, magic: Seq<u8>, message: MessageView) -> bool {
    decoded_message(frame) == Ok::<FrameView, Seq<char>>(FrameView { magic, message })
}

/// The number that four bytes spell, the first being the least significant.
pub open spec fn le32(b: Seq<u8>) -> nat {
    (b[0] + 0x100 * b[1] + 0x1_0000 * b[2] + 0x100_0000 * b[3]) as nat
}

/// The length of the payload that a header announces.
pub open spec fn announced_len(header: Seq<u8>) -> nat {
    le32(header.subrange(16, 20))
}

/// Whether a frame has the length that its header announces.
pub open spec fn is_whole(frame: Seq<u8>) -> bool {
    frame.len() >= 24 && announced_len(frame.subrange(0, 24)) == frame.len() - 24
}

/// The first frame of what a node receives, and what follows it: a header, and as many bytes as
/// the header announces. None while not all of that is there.
pub open spec fn next_frame(stream: Seq<u8>) -> Option<(Seq<u8>, Seq<u8>)> {
    if stream.len() < 24 {
        None
    } else {
        let n = 24 + announced_len(stream.subrange(0, 24)) as int;
        if stream.len() < n {
            None
        } else {
            Some((stream.take(n), stream.skip(n)))
        }
    }
}

/// How many bytes a length takes in front of a list or a text.
pub open spec fn compact_size_len(n: nat) -> nat {
    if n < 0xFD {
        1
    } else if n <= 0xFFFF {
        3
    } else if n <= 0xFFFF_FFFF {
        5
    } else {
        9
    }
}

/// The length of the payload of a message.
pub open spec fn payload_size(message: OutgoingView) -> nat {
    match message {
        OutgoingView::Version(v) => {
            let n = encode_utf8(v.user_agent).len();
            85 + compact_size_len(n) + n
        },
        OutgoingView::Tx(bytes) => bytes.len(),
        OutgoingView::GetData(_) => 37,
        _ => 0,
    }
}

/// What the node at the other end reads in a message.
pub open spec fn as_received(message: OutgoingView) -> MessageView {
    match message {
        OutgoingView::Version(v) => MessageView::Version(v),
        OutgoingView::Verack => MessageView::Verack,
        OutgoingView::SendAddrV2 => MessageView::SendAddrV2,
        OutgoingView::GetAddr => MessageView::GetAddr,
        OutgoingView::Tx(bytes) => MessageView::Tx(transaction_encoding(bytes)),
        OutgoingView::GetData(txid) => MessageView::GetData(seq![Some(txid)]),
    }
}

/// Whether `frame` is the frame of `message` on the main network: it is whole, and reading it
/// gives the message back.
pub open spec fn is_frame_of(frame: Seq<u8>, message: OutgoingView) -> bool {
    &&& frame == network_frame(MAGIC@, message)
    &&& is_whole(frame)
    &&& carries(frame, MAGIC@, as_received(message))
}

/// `bitcoin::p2p::message::RawNetworkMessage::new` and its `consensus_encode`, for a
/// `version` message.
///
/// The frame begins with the magic bytes and announces the length of what follows the
/// header. Reading it gives the message back, unless it is too long for that.
#[verifier::external_body]
fn encode_version(magic: [u8; 4], v: &VersionMessage) -> (frame: Vec<u8>)
    requires
        payload_size(OutgoingView::Version(v@)) <= u32::MAX,
    ensures
        frame@ == network_frame(magic@, OutgoingView::Version(v@)),
        frame@.len() == 24 + payload_size(OutgoingView::Version(v@)),
        frame@.subrange(0, 4) == magic@,
        announced_len(frame@.subrange(0, 24)) == frame@.len() - 24,
        frame@.len() <= 4_000_000 ==> carries(
            frame@,
            magic@,
            as_received(OutgoingView::Version(v@)),
        ),
{
    let node = |a: &AddrEntry| Address { services: a.services.into(), address: a.address, port: a.port };
    let message = bitcoin::p2p::message_network::VersionMessage {
        version: v.version,
        services: v.services.into(),
        timestamp: v.timestamp,
        receiver: node(&v.receiver),
        sender: node(&v.sender),
        nonce: v.nonce,
        user_agent: v.user_agent.clone(),
        start_height: v.start_height,
        relay: v.relay,
    };
    let raw = RawNetworkMessage::new(Magic::from_bytes(magic), NetworkMessage::Version(message));
    bitcoin::consensus::serialize(&raw)
}

/// `bitcoin::p2p::message::RawNetworkMessage::new` and its `consensus_encode`, for the
/// messages other than `version`.
///
/// The frame begins with the magic bytes and announces the length of what follows the
/// header. The payload of a transaction is its encoding, which has the same id; on a machine of
/// 64 bits it is the very bytes that `bitcoin::consensus::deserialize` took the transaction from,
/// while one of 32 bits may have cut lengths down as it read them. The payload of a request for a
/// transaction is a list of one item of type 1. Reading the frame gives the message back, unless
/// it is longer than the longest frame that can be read.
#[verifier::external_body]
fn encode_message(magic: [u8; 4], m: &Outgoing) -> (frame: Vec<u8>)
    requires
        payload_size(m@) <= u32::MAX,
        m matches Outgoing::Tx(tx) ==> is_transaction(tx@),
    ensures
        frame@ == network_frame(magic@, m@),
        frame@.len() >= 24,
        frame@.subrange(0, 4) == magic@,
        announced_len(frame@.subrange(0, 24)) == frame@.len() - 24,
        m matches Outgoing::Tx(tx) ==> frame@.skip(24) == transaction_encoding(tx@),
        m matches Outgoing::Tx(tx) ==> transaction_id(frame@.skip(24)) == transaction_id(tx@),
        usize::BITS == 64 ==> (m matches Outgoing::Tx(tx) ==> frame@.skip(24) == tx@),
        m matches Outgoing::GetData(txid) ==> frame@.skip(24) == seq![1u8, 1, 0, 0, 0] + txid@,
        m is Verack || m is SendAddrV2 || m is GetAddr ==> frame@.len() == 24,
        frame@.len() <= MAX_FRAME_LEN ==> carries(frame@, magic@, as_received(m@)),
{
    let message = match m {
        Outgoing::Verack => NetworkMessage::Verack,
        Outgoing::SendAddrV2 => NetworkMessage::SendAddrV2,
        Outgoing::GetAddr => NetworkMessage::GetAddr,
        Outgoing::Tx(tx) => NetworkMessage::Tx(
            bitcoin::consensus::deserialize(tx.bytes()).unwrap(),
        ),
        Outgoing::GetData(txid) => NetworkMessage::GetData(
            vec![Inventory::Transaction(bitcoin::hashes::Hash::from_byte_array(*txid))],
        ),
    };
    bitcoin::consensus::serialize(&RawNetworkMessage::new(Magic::from_bytes(magic), message))
}

/// What looking for addresses reads in a message.
#[derive(Clone, Debug, PartialEq, Eq)]
pub enum CrawlMessage {
    Version,
    Verack,
    Addr(Vec<AddrEntry>),
    AddrV2(Vec<AddrV2Entry>),
    Other,
}

/// A [`CrawlMessage`] with its lists as sequences.
pub enum CrawlView {
    Version,
    Verack,
    Addr(Seq<AddrEntry>),
    AddrV2(Seq<AddrV2Entry>),
    Other,
}

impl View for CrawlMessage {
    type V = CrawlView;

    open spec fn view(&self) -> CrawlView {
        match *self {
            CrawlMessage::Version => CrawlView::Version,
            CrawlMessage::Verack => CrawlView::Verack,
            CrawlMessage::Addr(list) => CrawlView::Addr(list@),
            CrawlMessage::AddrV2(list) => CrawlView::AddrV2(list@),
            CrawlMessage::Other => CrawlView::Other,
        }
    }
}

/// The part of a message that looking for addresses reads.
pub open spec fn crawl_part(message: MessageView) -> CrawlView {
    match message {
        MessageView::Version(_) => CrawlView::Version,
        MessageView::Verack => CrawlView::Verack,
        MessageView::Addr(list) => CrawlView::Addr(list),
        MessageView::AddrV2(list) => CrawlView::AddrV2(list),
        _ => CrawlView::Other,
    }
}

/// `bitcoin::p2p::message::RawNetworkMessage::consensus_decode`, with what looking for
/// addresses reads in the message.
#[verifier::external_body]
fn decode_for_crawl(frame: &[u8]) -> (r: Option<CrawlMessage>)
    ensures
        match decoded_message(frame@) {
            Ok(f) => r matches Some(c) && c@ == crawl_part(f.message),
            Err(_) => r is None,
        },
{
    Some(match RawNetworkMessage::consensus_decode(&mut Cursor::new(frame)).ok()?.payload() {
        Version(_) => CrawlMessage::Version,
        Verack => CrawlMessage::Verack,
        Addr(list) => CrawlMessage::Addr(list.iter().map(|(_, a)|
            AddrEntry::new(a.services.into(), a.address, a.port)).collect()),
        AddrV2(list) => CrawlMessage::AddrV2(list.iter().map(|a|
            AddrV2Entry::new(a.services.into(), match a.addr {
                Ipv4(ip) => AddrV2Host::Ipv4(ip.into()),
                Ipv6(ip) => AddrV2Host::Ipv6(ip.into()),
                TorV3(key) => AddrV2Host::TorV3(key),
                _ => AddrV2Host::Other,
            }, a.port)).collect()),
        _ => CrawlMessage::Other,
    })
}

/// What handing over a transaction reads in a message.
#[derive(Clone, Debug, PartialEq, Eq)]
pub enum DeliveryMessage {
    Version { services: u64, user_agent: String },
    Inv(Vec<InvItem>),
    NotFound(Vec<InvItem>),
    /// A transaction, by its id.
    Tx([u8; 32]),
    Other,
}

/// A [`DeliveryMessage`] with its contents as sequences.
pub enum DeliveryView {
    Version { services: u64, user_agent: Seq<char> },
    Inv(Seq<InvItem>),
    NotFound(Seq<InvItem>),
    Tx(Seq<u8>),
    Other,
}

impl DeliveryMessage {
    /// A `version` message.
    pub fn version(services: u64, user_agent: String) -> (r: Self)
        ensures
            r@ == (DeliveryView::Version { services, user_agent: user_agent@ }),
    {
        DeliveryMessage::Version { services, user_agent }
    }
}

impl View for DeliveryMessage {
    type V = DeliveryView;

    open spec fn view(&self) -> DeliveryView {
        match *self {
            DeliveryMessage::Version { services, user_agent } => DeliveryView::Version {
                services,
                user_agent: user_agent@,
            },
            DeliveryMessage::Inv(list) => DeliveryView::Inv(list@),
            DeliveryMessage::NotFound(list) => DeliveryView::NotFound(list@),
            DeliveryMessage::Tx(txid) => DeliveryView::Tx(txid@),
            DeliveryMessage::Other => DeliveryView::Other,
        }
    }
}

/// The part of a message that handing over a transaction reads.
pub open spec fn delivery_part(message: MessageView) -> DeliveryView {
    match message {
        MessageView::Version(v) => DeliveryView::Version {
            services: v.services,
            user_agent: v.user_agent,
        },
        MessageView::Inv(list) => DeliveryView::Inv(list),
        MessageView::NotFound(list) => DeliveryView::NotFound(list),
        MessageView::Tx(bytes) => DeliveryView::Tx(transaction_id(bytes)),
        _ => DeliveryView::Other,
    }
}

/// `bitcoin::p2p::message::RawNetworkMessage::consensus_decode`, with what handing over a
/// transaction reads in the message.
#[verifier::external_body]
fn decode_for_delivery(frame: &[u8]) -> (r: Result<DeliveryMessage, String>)
    ensures
        match decoded_message(frame@) {
            Ok(f) => r matches Ok(d) && d@ == delivery_part(f.message),
            Err(text) => r matches Err(t) && t@ == text,
        },
{
    let item = |i: &Inventory| match i {
        Inventory::Transaction(t) => InvItem::Transaction(*t.as_ref()),
        _ => InvItem::Other,
    };
    match RawNetworkMessage::consensus_decode(&mut Cursor::new(frame)) {
        Ok(raw) => Ok(match raw.into_payload() {
            Version(v) => DeliveryMessage::version(v.services.into(), v.user_agent),
            Inv(l) => DeliveryMessage::Inv(l.iter().map(item).collect()),
            NotFound(l) => DeliveryMessage::NotFound(l.iter().map(item).collect()),
            Tx(t) => DeliveryMessage::Tx(*t.compute_txid().as_ref()),
            _ => DeliveryMessage::Other,
        }),
        Err(e) => Err(e.to_string()),
    }
}

/// The address of a side that does not say where it is: IPv4 address and port zero.
pub open spec fn unspecified_address(services: u64) -> AddrEntry {
    AddrEntry { services, address: [0u16, 0, 0, 0, 0, 0xFFFF, 0, 0], port: 0 }
}

/// The `version` message with which the service introduces itself.
pub open spec fn own_version(unix_secs: u64, nonce: u64) -> VersionView {
    VersionView {
        version: 70016,
        services: NODE_NETWORK | NODE_WITNESS | NODE_LIBRE_RELAY,
        timestamp: unix_secs as i64,
        receiver: unspecified_address(NODE_NETWORK | NODE_LIBRE_RELAY),
        sender: unspecified_address(NODE_NETWORK | NODE_WITNESS | NODE_LIBRE_RELAY),
        nonce,
        user_agent: "/Satoshi:27.0.0/"@,
        start_height: 897157,
        relay: true,
    }
}

/// Builds the `version` message for a time and a nonce.
pub fn version_msg(unix_secs: u64, nonce: u64) -> (v: VersionMessage)
    ensures
        v@ == own_version(unix_secs, nonce),
{
    let unspecified: [u16; 8] = [0u16, 0, 0, 0, 0, 0xFFFF, 0, 0];
    VersionMessage {
        version: 70016,
        services: NODE_NETWORK | NODE_WITNESS | NODE_LIBRE_RELAY,
        timestamp: unix_secs as i64,
        receiver: AddrEntry {
            services: NODE_NETWORK | NODE_LIBRE_RELAY,
            address: unspecified,
            port: 0,
        },
        sender: AddrEntry {
            services: NODE_NETWORK | NODE_WITNESS | NODE_LIBRE_RELAY,
            address: unspecified,
            port: 0,
        },
        nonce,
        user_agent: "/Satoshi:27.0.0/".to_owned(),
        start_height: 897157,
        relay: true,
    }
}

/// `rand::random`: any number may come out, so nothing is promised of it.
#[verifier::external_body]
fn random_nonce() -> u64 {
    rand::random::<u64>()
}

/// Builds the `version` message for a time, with a nonce drawn at random.
pub fn build_version_msg(unix_secs: u64) -> (v: VersionMessage)
    ensures
        v@ == own_version(unix_secs, v.nonce),
{
    version_msg(unix_secs, random_nonce())
}

/// Encodes a `version` message. A node that reads the header and then as many bytes as it
/// announces has the whole frame, and reads the message in it.
pub fn encode_version_msg(v: &VersionMessage) -> (frame: Vec<u8>)
    requires
        payload_size(OutgoingView::Version(v@)) <= u32::MAX,
    ensures
        frame@ == network_frame(MAGIC@, OutgoingView::Version(v@)),
        frame@.len() == 24 + payload_size(OutgoingView::Version(v@)),
        frame@.subrange(0, 4) == MAGIC@,
        is_whole(frame@),
        frame@.len() <= 4_000_000 ==> is_frame_of(frame@, OutgoingView::Version(v@)),
{
    encode_version(MAGIC, v)
}

/// The frame of the service's own `version` message has 126 bytes.
proof fn lemma_own_version_size(unix_secs: u64, nonce: u64)
    ensures
        payload_size(OutgoingView::Version(own_version(unix_secs, nonce))) == 102,
{
    reveal_strlit("/Satoshi:27.0.0/");
    vstd::utf8::is_ascii_chars_encode_utf8("/Satoshi:27.0.0/"@);
}

/// The frame with which the service introduces itself to a node.
pub fn greeting(unix_secs: u64) -> (frame: Vec<u8>)
    ensures
        exists|nonce: u64|
            is_frame_of(frame@, OutgoingView::Version(#[trigger] own_version(unix_secs, nonce))),
        frame@.len() == 126,
        announced_len(frame@.subrange(0, 24)) == 102,
{
    let v = build_version_msg(unix_secs);
    proof {
        lemma_own_version_size(unix_secs, v.nonce);
    }
    encode_version_msg(&v)
}

/// The service announces the very bit that it looks for in others.
pub proof fn own_version_announces_libre_relay(unix_secs: u64, nonce: u64)
    ensures
        announces_libre_relay(own_version(unix_secs, nonce).services),
        announces_libre_relay(own_version(unix_secs, nonce).receiver.services),
        announces_libre_relay(own_version(unix_secs, nonce).sender.services),
{
    assert((0x1u64 | 0x8u64 | 0x2000_0000u64) & 0x2000_0000u64 != 0) by (bit_vector);
    assert((0x1u64 | 0x2000_0000u64) & 0x2000_0000u64 != 0) by (bit_vector);
}

impl Outgoing {
    /// Tests whether the payload of the message has a length that a header can announce.
    pub fn fits(&self) -> (r: bool)
        ensures
            r == (payload_size(self@) <= u32::MAX),
    {
        match self {
            Outgoing::Tx(tx) => tx.bytes().len() <= u32::MAX as usize,
            _ => true,
        }
    }
}

/// Encodes a message. A node that reads the header and then as many bytes as it announces
/// has the whole frame, and reads the message in it. What it reads of a transaction is its
/// encoding: on a machine of 64 bits, the bytes that were given for it.
pub fn encode_msg(m: &Outgoing) -> (frame: Vec<u8>)
    requires
        payload_size(m@) <= u32::MAX,
    ensures
        frame@ == network_frame(MAGIC@, m@),
        frame@.len() >= 24,
        frame@.subrange(0, 4) == MAGIC@,
        is_whole(frame@),
        m matches Outgoing::Tx(tx) ==> frame@.skip(24) == transaction_encoding(tx@),
        m matches Outgoing::Tx(tx) ==> transaction_id(frame@.skip(24)) == transaction_id(tx@),
        usize::BITS == 64 ==> (m matches Outgoing::Tx(tx) ==> frame@.skip(24) == tx@),
        m matches Outgoing::GetData(txid) ==> frame@.skip(24) == seq![1u8, 1, 0, 0, 0] + txid@,
        m is Verack || m is SendAddrV2 || m is GetAddr ==> frame@.len() == 24,
        frame@.len() <= MAX_FRAME_LEN ==> is_frame_of(frame@, m@),
{
    if let Outgoing::Tx(tx) = m {
        proof {
            use_type_invariant(tx);
        }
    }
    encode_message(MAGIC, m)
}

/// The length of the payload that follows a header.
pub fn payload_len(header: &[u8; 24]) -> (n: usize)
    ensures
        n == announced_len(header@),
{
    let n: u32 = header[16] as u32 + 0x100 * header[17] as u32 + 0x1_0000 * header[18] as u32
        + 0x100_0000 * header[19] as u32;
    n as usize
}

/// A header and its payload as one frame.
fn whole_frame(header: &[u8; 24], payload: &Vec<u8>) -> (frame: Vec<u8>)
    ensures
        frame@ == header@ + payload@,
{
    let mut frame: Vec<u8> = Vec::new();
    frame.extend_from_slice(header.as_slice());
    frame.extend_from_slice(payload.as_slice());
    assert(frame@ =~= header@ + payload@);
    frame
}

/// Reads a frame while looking for addresses; nothing comes of a frame that does not decode.
pub fn read_crawl_msg(header: &[u8; 24], payload: &Vec<u8>) -> (r: Option<CrawlMessage>)
    ensures
        match decoded_message(header@ + payload@) {
            Ok(f) => r matches Some(c) && c@ == crawl_part(f.message),
            Err(_) => r is None,
        },
{
    let frame = whole_frame(header, payload);
    decode_for_crawl(frame.as_slice())
}

/// Reads a frame while handing over a transaction.
pub fn read_delivery_msg(header: &[u8; 24], payload: &Vec<u8>) -> (r: Result<
    DeliveryMessage,
    String,
>)
    ensures
        match decoded_message(header@ + payload@) {
            Ok(f) => r matches Ok(d) && d@ == delivery_part(f.message),
            Err(text) => r matches Err(t) && t@ == text,
        },
{
    let frame = whole_frame(header, payload);
    decode_for_delivery(frame.as_slice())
}

/// What is sent is what is read: a node that reads the header of a frame, and then as many bytes
/// as the header announces, reads the message that was sent, on the main network.
pub proof fn a_frame_is_read_as_it_was_sent(
    frame: Seq<u8>,
    message: OutgoingView,
    header: Seq<u8>,
    payload: Seq<u8>,
)
    requires
        is_frame_of(frame, message),
        header == frame.subrange(0, 24),
        payload == frame.subrange(24, 24 + announced_len(header) as int),
    ensures
        carries(header + payload, MAGIC@, as_received(message)),
{
    assert(header + payload =~= frame);
}

/// Whether two messages are the same, where transactions are by their encoding.
pub open spec fn same_message(message1: OutgoingView, message2: OutgoingView) -> bool {
    match (message1, message2) {
        (OutgoingView::Tx(bytes1), OutgoingView::Tx(bytes2)) => transaction_encoding(bytes1)
            == transaction_encoding(bytes2),
        _ => message1 == message2,
    }
}

/// What is received tells what was sent: no two messages are received alike.
pub proof fn different_messages_are_received_differently(
    message1: OutgoingView,
    message2: OutgoingView,
)
    requires
        as_received(message1) == as_received(message2),
    ensures
        same_message(message1, message2),
{
    if let (OutgoingView::GetData(id1), OutgoingView::GetData(id2)) = (message1, message2) {
        assert(seq![Some(id1)][0] == seq![Some(id2)][0]);
    }
}

/// A read takes exactly one frame, whatever follows it.
pub proof fn a_read_takes_one_frame(frame: Seq<u8>, rest: Seq<u8>)
    requires
        is_whole(frame),
    ensures
        next_frame(frame + rest) == Some((frame, rest)),
{
    assert((frame + rest).subrange(0, 24) =~= frame.subrange(0, 24));
    assert((frame + rest).take(frame.len() as int) =~= frame);
    assert((frame + rest).skip(frame.len() as int) =~= rest);
}

/// Of two messages that are sent one after the other, the first read gives the first, the second
/// read gives the second, and then nothing is left.
pub proof fn messages_are_read_one_by_one(
    frame1: Seq<u8>,
    message1: OutgoingView,
    frame2: Seq<u8>,
    message2: OutgoingView,
)
    requires
        is_frame_of(frame1, message1),
        is_frame_of(frame2, message2),
    ensures
        next_frame(frame1 + frame2) == Some((frame1, frame2)),
        carries(frame1, MAGIC@, as_received(message1)),
        next_frame(frame2) == Some((frame2, Seq::<u8>::empty())),
        carries(frame2, MAGIC@, as_received(message2)),
{
    a_read_takes_one_frame(frame1, frame2);
    a_read_takes_one_frame(frame2, Seq::empty());
    assert(frame2 + Seq::<u8>::empty() =~= frame2);
}

/// The service introduces itself as a full node with witnesses that relays freely, at the time
/// and with the nonce that it is given, and says of neither side where it is.
pub proof fn the_own_introduction(unix_secs: u64, nonce: u64, k: int)
    requires
        unix_secs <= i64::MAX,
    ensures
        ({
            let v = own_version(unix_secs, nonce);
            &&& v.version == 70016
            &&& v.services == 0x2000_0009
            &&& v.timestamp == unix_secs
            &&& v.receiver.services == 0x2000_0001 && v.sender.services == 0x2000_0009
            &&& v.receiver.port == 0 && v.sender.port == 0
            &&& 0 <= k < 8 ==> v.receiver.address@[k] == (if k == 5 {
                0xFFFFu16
            } else {
                0u16
            }) && v.sender.address@[k] == v.receiver.address@[k]
            &&& v.nonce == nonce
            &&& v.user_agent == "/Satoshi:27.0.0/"@
            &&& v.start_height == 897157
            &&& v.relay
        }),
{
    assert((0x1u64 | 0x8u64 | 0x2000_0000u64) == 0x2000_0009u64) by (bit_vector);
    assert((0x1u64 | 0x2000_0000u64) == 0x2000_0001u64) by (bit_vector);
}

/// The length that a header announces is the number that its bytes 16 to 19 spell, the last being
/// the most significant.
pub proof fn the_length_stands_in_the_header(header: Seq<u8>)
    requires
        header.len() == 24,
    ensures
        announced_len(header) == header[16] + 256 * header[17] + 65536 * header[18] + 16777216
            * header[19],
        announced_len(header) <= u32::MAX,
        announced_len(header) % 256 == header[16],
        announced_len(header) / 256 % 256 == header[17],
        announced_len(header) / 65536 % 256 == header[18],
        announced_len(header) / 16777216 == header[19],
{
}

/// What is read of a message is all that there is of it to read: lists as they are, whatever
/// their length, a transaction by its id, and of an introduction the services and the user agent.
pub proof fn what_is_read_of_a_message(
    version: VersionView,
    addresses: Seq<AddrEntry>,
    addresses_v2: Seq<AddrV2Entry>,
    items: Seq<InvItem>,
    tx: Seq<u8>,
)
    ensures
        crawl_part(MessageView::Version(version)) == CrawlView::Version,
        crawl_part(MessageView::Verack) == CrawlView::Verack,
        crawl_part(MessageView::Addr(addresses)) == CrawlView::Addr(addresses),
        crawl_part(MessageView::AddrV2(addresses_v2)) == CrawlView::AddrV2(addresses_v2),
        crawl_part(MessageView::Inv(items)) == CrawlView::Other,
        crawl_part(MessageView::NotFound(items)) == CrawlView::Other,
        crawl_part(MessageView::Tx(tx)) == CrawlView::Other,
        crawl_part(MessageView::Other) == CrawlView::Other,
        delivery_part(MessageView::Version(version)) == (DeliveryView::Version {
            services: version.services,
            user_agent: version.user_agent,
        }),
        delivery_part(MessageView::Inv(items)) == DeliveryView::Inv(items),
        delivery_part(MessageView::NotFound(items)) == DeliveryView::NotFound(items),
        delivery_part(MessageView::Tx(tx)) == DeliveryView::Tx(transaction_id(tx)),
        delivery_part(MessageView::Verack) == DeliveryView::Other,
        delivery_part(MessageView::Addr(addresses)) == DeliveryView::Other,
        delivery_part(MessageView::AddrV2(addresses_v2)) == DeliveryView::Other,
        delivery_part(MessageView::Other) == DeliveryView::Other,
{
}

/// Messages keep all that they hold.
pub proof fn messages_keep_what_they_hold(
    addresses: Vec<AddrEntry>,
    addresses_v2: Vec<AddrV2Entry>,
    items: Vec<InvItem>,
    services: u64,
    user_agent: String,
    txid: [u8; 32],
    tx: Transaction,
    version: VersionMessage,
)
    ensures
        version@ == (VersionView {
            version: version.version,
            services: version.services,
            timestamp: version.timestamp,
            receiver: version.receiver,
            sender: version.sender,
            nonce: version.nonce,
            user_agent: version.user_agent@,
            start_height: version.start_height,
            relay: version.relay,
        }),
        CrawlMessage::Version@ == CrawlView::Version,
        CrawlMessage::Verack@ == CrawlView::Verack,
        CrawlMessage::Addr(addresses)@ == CrawlView::Addr(addresses@),
        CrawlMessage::AddrV2(addresses_v2)@ == CrawlView::AddrV2(addresses_v2@),
        CrawlMessage::Other@ == CrawlView::Other,
        (DeliveryMessage::Version { services, user_agent })@ == (DeliveryView::Version {
            services,
            user_agent: user_agent@,
        }),
        DeliveryMessage::Inv(items)@ == DeliveryView::Inv(items@),
        DeliveryMessage::NotFound(items)@ == DeliveryView::NotFound(items@),
        DeliveryMessage::Tx(txid)@ == DeliveryView::Tx(txid@),
        DeliveryMessage::Other@ == DeliveryView::Other,
        Outgoing::Verack@ == OutgoingView::Verack,
        Outgoing::SendAddrV2@ == OutgoingView::SendAddrV2,
        Outgoing::GetAddr@ == OutgoingView::GetAddr,
        Outgoing::Tx(tx)@ == OutgoingView::Tx(tx@),
        Outgoing::GetData(txid)@ == OutgoingView::GetData(txid@),
{
}

/// A payload can be announced exactly where its length fits in 32 bits, and that of a transaction
/// has the length of its bytes.
pub proof fn payloads_of_messages(tx: Seq<u8>, txid: Seq<u8>)
    ensures
        payload_size(OutgoingView::Tx(tx)) == tx.len(),
        payload_size(OutgoingView::GetData(txid)) == 37,
        payload_size(OutgoingView::Verack) == 0,
        payload_size(OutgoingView::SendAddrV2) == 0,
        payload_size(OutgoingView::GetAddr) == 0,
{
}

} // verus!
