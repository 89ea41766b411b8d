use tx_pigeon::transaction::{Transaction, TxError};

const GENESIS: &str = "01000000010000000000000000000000000000000000000000000000000000000000000000ffffffff4d04ffff001d0104455468652054696d65732030332f4a616e2f32303039204368616e63656c6c6f72206f6e206272696e6b206f66207365636f6e64206261696c6f757420666f722062616e6b73ffffffff0100f2052a01000000434104678afdb0fe5548271967f1a67130b7105cd6a828e03909a67962e0ea1f61deb649f6bc3f4cef38c4f35504e51ec112de5c384df7ba0b8d578a4c702b6bf11d5fac00000000";

const GENESIS_ID: &str = "4a5e1e4baab89f3a32518a88c31bc87f618f76673e2cc77ab2127b7afdeda33b";

#[test]
fn a_transaction_is_read_from_hex() {
    let tx = Transaction::from_hex(GENESIS).unwrap();
    assert_eq!(tx.txid_text(), GENESIS_ID);
    assert_eq!(tx.bytes(), &hex::decode(GENESIS).unwrap());
}

#[test]
fn the_case_of_digits_does_not_matter() {
    let lower = Transaction::from_hex(GENESIS).unwrap();
    let upper = Transaction::from_hex(&GENESIS.to_uppercase()).unwrap();
    assert_eq!(lower.bytes(), upper.bytes());
    assert_eq!(lower.txid(), upper.txid());
}

#[test]
fn the_text_of_an_id_is_its_bytes_in_reverse() {
    let tx = Transaction::from_hex(GENESIS).unwrap();
    let mut bytes = hex::decode(tx.txid_text()).unwrap();
    bytes.reverse();
    assert_eq!(bytes, tx.txid().to_vec());
}

#[test]
fn a_clone_is_the_same_transaction() {
    let tx = Transaction::from_hex(GENESIS).unwrap();
    let copy = tx.clone();
    assert_eq!(copy.bytes(), tx.bytes());
    assert_eq!(copy.txid(), tx.txid());
}

#[test]
fn bytes_after_the_transaction_are_refused() {
    let e = Transaction::from_hex(&format!("{}00", GENESIS)).unwrap_err();
    match &e {
        TxError::InvalidFormat(text) => {
            assert!(text.contains("data not consumed entirely"));
            assert_eq!(e.message(), format!("Invalid transaction format: {}", text));
        }
        other => panic!("{:?}", other),
    }
}

#[test]
fn a_part_of_a_transaction_is_refused() {
    for text in ["", "01000000", &GENESIS[..GENESIS.len() - 2]] {
        let e = Transaction::from_hex(text).unwrap_err();
        assert!(e.message().starts_with("Invalid transaction format: "));
    }
}

#[test]
fn bytes_are_taken_as_they_are() {
    let bytes = hex::decode(GENESIS).unwrap();
    assert_eq!(Transaction::from_bytes(bytes.clone()).unwrap().bytes(), &bytes);
    assert!(Transaction::from_bytes(vec![1, 2, 3]).is_err());
}

const BARE: &str = "01000000010000000000000000000000000000000000000000000000000000000000000001\
                    0000000000ffffffff01e80300000000000001510000\
                    0000";

fn with_witness(witness: &str) -> String {
    let body = &BARE[8..BARE.len() - 8];
    format!("{}0001{}{}{}", &BARE[..8], body, witness, &BARE[BARE.len() - 8..])
}

#[test]
fn witnesses_do_not_change_the_id() {
    let bare = Transaction::from_hex(BARE).unwrap();
    let one = Transaction::from_hex(&with_witness("010151")).unwrap();
    assert_ne!(bare.bytes(), one.bytes());
    assert_eq!(bare.txid(), one.txid());
    let two = Transaction::from_hex(&with_witness("0201510152")).unwrap();
    assert_eq!(two.txid_text(), bare.txid_text());
    assert_ne!(
        Transaction::from_hex(GENESIS).unwrap().txid(),
        bare.txid()
    );
}

#[test]
fn an_id_has_sixty_four_lower_case_digits() {
    let text = Transaction::from_hex(BARE).unwrap().txid_text();
    assert_eq!(text.len(), 64);
    assert!(text.chars().all(|c| c.is_ascii_digit() || ('a'..='f').contains(&c)));
}
