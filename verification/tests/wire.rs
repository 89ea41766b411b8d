use bitcoin::p2p::message::{CommandString, NetworkMessage, RawNetworkMessage};
use bitcoin::p2p::Magic;
use tx_pigeon::address::{AddrEntry, AddrV2Entry, AddrV2Host};
use tx_pigeon::transaction::Transaction;
use tx_pigeon::wire::{
    build_version_msg, encode_msg, encode_version_msg, greeting, payload_len, read_crawl_msg,
    read_delivery_msg, version_msg, CrawlMessage, DeliveryMessage, InvItem, Outgoing,
};

const GENESIS: &str = "01000000010000000000000000000000000000000000000000000000000000000000000000ffffffff4d04ffff001d0104455468652054696d65732030332f4a616e2f32303039204368616e63656c6c6f72206f6e206272696e6b206f66207365636f6e64206261696c6f757420666f722062616e6b73ffffffff0100f2052a01000000434104678afdb0fe5548271967f1a67130b7105cd6a828e03909a67962e0ea1f61deb649f6bc3f4cef38c4f35504e51ec112de5c384df7ba0b8d578a4c702b6bf11d5fac00000000";

fn parts(frame: &[u8]) -> ([u8; 24], Vec<u8>) {
    let mut header = [0u8; 24];
    header.copy_from_slice(&frame[..24]);
    (header, frame[24..].to_vec())
}

fn frame(command: &'static str, payload: &str) -> ([u8; 24], Vec<u8>) {
    let message = NetworkMessage::Unknown {
        command: CommandString::try_from_static(command).unwrap(),
        payload: hex::decode(payload).unwrap(),
    };
    let raw = RawNetworkMessage::new(Magic::BITCOIN, message);
    parts(&bitcoin::consensus::serialize(&raw))
}

fn crawl(command: &'static str, payload: &str) -> Option<CrawlMessage> {
    let (header, payload) = frame(command, payload);
    read_crawl_msg(&header, &payload)
}

fn delivery(command: &'static str, payload: &str) -> Result<DeliveryMessage, String> {
    let (header, payload) = frame(command, payload);
    read_delivery_msg(&header, &payload)
}

#[test]
fn frames_without_payload() {
    assert_eq!(
        hex::encode(encode_msg(&Outgoing::Verack)),
        "f9beb4d976657261636b000000000000000000005df6e0e2"
    );
    assert_eq!(
        hex::encode(encode_msg(&Outgoing::GetAddr)),
        "f9beb4d9676574616464720000000000000000005df6e0e2"
    );
    assert_eq!(
        hex::encode(encode_msg(&Outgoing::SendAddrV2)),
        "f9beb4d973656e646164647276320000000000005df6e0e2"
    );
}

#[test]
fn the_own_version() {
    let v = version_msg(1_700_000_000, 42);
    assert_eq!(v.version, 70016);
    assert_eq!(v.services, 0x2000_0009);
    assert_eq!(v.timestamp, 1_700_000_000);
    assert_eq!(v.receiver.services, 0x2000_0001);
    assert_eq!(v.sender.services, 0x2000_0009);
    assert_eq!(v.receiver.address, [0, 0, 0, 0, 0, 0xffff, 0, 0]);
    assert_eq!((v.receiver.port, v.sender.port), (0, 0));
    assert_eq!(v.nonce, 42);
    assert_eq!(v.user_agent, "/Satoshi:27.0.0/");
    assert_eq!(v.start_height, 897157);
    assert!(v.relay);
    let w = build_version_msg(1_700_000_000);
    assert_eq!(w, version_msg(1_700_000_000, w.nonce));
}

#[test]
fn nonces_differ() {
    let a = build_version_msg(1).nonce;
    let b = build_version_msg(1).nonce;
    let c = build_version_msg(1).nonce;
    assert!(a != b || b != c);
}

#[test]
fn the_frame_of_the_own_version() {
    let f = encode_version_msg(&version_msg(1_700_000_000, 42));
    assert_eq!(f.len(), 126);
    assert_eq!(hex::encode(&f[..20]), "f9beb4d976657273696f6e000000000066000000");
    let payload = "80110100090000200000000000f1536500000000\
                   010000200000000000000000000000000000ffff000000000000\
                   090000200000000000000000000000000000ffff000000000000\
                   2a00000000000000\
                   102f5361746f7368693a32372e302e302f85b00d0001"
        .replace(' ', "");
    assert_eq!(hex::encode(&f[24..]), payload);
}

#[test]
fn the_greeting_is_read_as_a_libre_relay_node() {
    let (header, payload) = parts(&greeting(1_700_000_000));
    assert_eq!(payload_len(&header), 102);
    assert_eq!(
        read_delivery_msg(&header, &payload),
        Ok(DeliveryMessage::Version {
            services: 0x2000_0009,
            user_agent: "/Satoshi:27.0.0/".to_string()
        })
    );
    assert_eq!(read_crawl_msg(&header, &payload), Some(CrawlMessage::Version));
}

#[test]
fn a_transaction_is_sent_as_it_was_given() {
    let tx = Transaction::from_hex(GENESIS).unwrap();
    let m = Outgoing::Tx(tx.clone());
    assert!(m.fits());
    let (header, payload) = parts(&encode_msg(&m));
    assert_eq!(payload_len(&header), payload.len());
    assert_eq!(&payload, tx.bytes());
    assert_eq!(read_delivery_msg(&header, &payload), Ok(DeliveryMessage::Tx(tx.txid())));
    assert_eq!(read_crawl_msg(&header, &payload), Some(CrawlMessage::Other));
}

#[test]
fn a_request_for_a_transaction() {
    let mut txid = [0u8; 32];
    txid[0] = 0xab;
    txid[31] = 0xcd;
    let (header, payload) = parts(&encode_msg(&Outgoing::GetData(txid)));
    assert_eq!(payload_len(&header), 37);
    assert_eq!(&payload[..5], &[1, 1, 0, 0, 0]);
    assert_eq!(&payload[5..], &txid);
    assert_eq!(read_delivery_msg(&header, &payload), Ok(DeliveryMessage::Other));
}

#[test]
fn signals_are_read_as_they_were_sent() {
    let (header, payload) = parts(&encode_msg(&Outgoing::Verack));
    assert_eq!(read_crawl_msg(&header, &payload), Some(CrawlMessage::Verack));
    assert_eq!(read_delivery_msg(&header, &payload), Ok(DeliveryMessage::Other));
    for m in [Outgoing::GetAddr, Outgoing::SendAddrV2] {
        let (header, payload) = parts(&encode_msg(&m));
        assert_eq!(read_crawl_msg(&header, &payload), Some(CrawlMessage::Other));
    }
}

#[test]
fn announced_lengths() {
    let mut header = [0xffu8; 24];
    header[16] = 0x04;
    header[17] = 0x03;
    header[18] = 0x02;
    header[19] = 0x01;
    assert_eq!(payload_len(&header), 0x01020304);
    assert_eq!(payload_len(&[0xff; 24]), 0xffff_ffff);
    assert_eq!(payload_len(&[0; 24]), 0);
}

#[test]
fn a_list_of_addresses() {
    let payload = "01\
                   00000000\
                   0900002000000000\
                   00000000000000000000ffff01020304\
                   208d";
    assert_eq!(
        crawl("addr", &payload.replace(' ', "")),
        Some(CrawlMessage::Addr(vec![AddrEntry {
            services: 0x2000_0009,
            address: [0, 0, 0, 0, 0, 0xffff, 0x0102, 0x0304],
            port: 8333
        }]))
    );
    assert_eq!(crawl("addr", "00"), Some(CrawlMessage::Addr(vec![])));
}

#[test]
fn a_list_of_addresses_of_the_second_form() {
    let key = "1d04a1d04a338c6e6ae970bfabee49049d6702250984ca950c01673f4ec034ad";
    let payload = format!(
        "04\
         00000000 fe00000020 01 04 01020304 208d\
         00000000 01 02 10 20010db8000000000000000000000001 0001\
         00000000 fe00000020 04 20 {} 208d\
         00000000 00 05 20 {} 0000",
        key, key
    )
    .replace(' ', "");
    let raw = hex::decode(key).unwrap();
    let mut k = [0u8; 32];
    k.copy_from_slice(&raw);
    let entry = |services: u64, host: AddrV2Host, port: u16| AddrV2Entry { services, host, port };
    assert_eq!(
        crawl("addrv2", &payload),
        Some(CrawlMessage::AddrV2(vec![
            entry(0x2000_0000, AddrV2Host::Ipv4(0x01020304), 8333),
            entry(1, AddrV2Host::Ipv6(0x20010db8000000000000000000000001), 1),
            entry(0x2000_0000, AddrV2Host::TorV3(k), 8333),
            entry(0, AddrV2Host::Other, 0),
        ]))
    );
}

#[test]
fn lists_of_items() {
    let id = "11".repeat(32);
    let payload = format!("02 01000000 {} 02000000 {}", id, id).replace(' ', "");
    let items = vec![InvItem::Transaction([0x11; 32]), InvItem::Other];
    assert_eq!(delivery("inv", &payload), Ok(DeliveryMessage::Inv(items.clone())));
    assert_eq!(delivery("notfound", &payload), Ok(DeliveryMessage::NotFound(items)));
    let witness = format!("01 01000040 {}", id).replace(' ', "");
    assert_eq!(delivery("inv", &witness), Ok(DeliveryMessage::Inv(vec![InvItem::Other])));
    assert_eq!(crawl("inv", &payload), Some(CrawlMessage::Other));
}

#[test]
fn other_messages_are_passed_over() {
    assert_eq!(crawl("ping", "0102030405060708"), Some(CrawlMessage::Other));
    assert_eq!(delivery("ping", "0102030405060708"), Ok(DeliveryMessage::Other));
    assert_eq!(delivery("nonsense", "00"), Ok(DeliveryMessage::Other));
}

#[test]
fn a_spoilt_frame_is_an_error() {
    let (mut header, payload) = frame("ping", "0102030405060708");
    header[20] = header[20].wrapping_add(1);
    assert_eq!(read_crawl_msg(&header, &payload), None);
    let text = read_delivery_msg(&header, &payload).unwrap_err();
    assert!(text.contains("checksum"));
}

#[test]
fn a_short_payload_is_an_error() {
    let (header, payload) = frame("ping", "0102030405060708");
    assert_eq!(read_crawl_msg(&header, &payload[..7].to_vec()), None);
    assert!(read_delivery_msg(&header, &payload[..7].to_vec()).is_err());
    assert!(delivery("ping", "01").is_err());
    assert!(delivery("verack", "").is_ok());
}

#[test]
fn two_messages_are_read_one_by_one() {
    let tx = Transaction::from_hex(GENESIS).unwrap();
    let mut stream = encode_msg(&Outgoing::Tx(tx.clone()));
    stream.extend(encode_msg(&Outgoing::Verack));
    let mut header = [0u8; 24];
    header.copy_from_slice(&stream[..24]);
    let end = 24 + payload_len(&header);
    let payload = stream[24..end].to_vec();
    assert_eq!(read_delivery_msg(&header, &payload), Ok(DeliveryMessage::Tx(tx.txid())));
    let (header, payload) = parts(&stream[end..]);
    assert_eq!(payload_len(&header), payload.len());
    assert_eq!(read_crawl_msg(&header, &payload), Some(CrawlMessage::Verack));
}

#[test]
fn requests_are_read_back_by_the_network_crate() {
    let decode = |frame: Vec<u8>| {
        bitcoin::consensus::deserialize::<RawNetworkMessage>(&frame).unwrap()
    };
    let id = [9u8; 32];
    let raw = decode(encode_msg(&Outgoing::GetData(id)));
    assert_eq!(*raw.magic(), Magic::BITCOIN);
    let items = vec![bitcoin::p2p::message_blockdata::Inventory::Transaction(
        bitcoin::hashes::Hash::from_byte_array(id),
    )];
    assert_eq!(raw.payload(), &NetworkMessage::GetData(items));
    assert_eq!(decode(encode_msg(&Outgoing::SendAddrV2)).payload(), &NetworkMessage::SendAddrV2);
    assert_eq!(decode(encode_msg(&Outgoing::GetAddr)).payload(), &NetworkMessage::GetAddr);
    match decode(encode_version_msg(&version_msg(7, 8))).payload() {
        NetworkMessage::Version(v) => {
            assert_eq!((v.version, v.timestamp, v.nonce), (70016, 7, 8));
            assert_eq!((v.start_height, v.relay), (897157, true));
        }
        other => panic!("{:?}", other),
    }
}
