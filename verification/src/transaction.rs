//! Transactions as a request gives them: hexadecimal text that decodes to one
//! whole Bitcoin transaction.

use vstd::prelude::*;
use vstd::utf8::{encode_utf8, is_ascii_chars, is_ascii_chars_encode_utf8};

use crate::text::{
    case_in_characters_is_case_in_bytes, decode_hex, hex_decoding, hex_digit_value, hex_digits,
    hex_error_display, hex_pairs, hexadecimal_text_is_decoded, leading_hex,
    letter_case_does_not_matter, same_but_for_case, spells, HexError,
};

verus! {

/// What `bitcoin` says against reading `bytes` as exactly one transaction, if it
/// says anything: the text of the error of `bitcoin::consensus::deserialize`.
pub uninterp spec fn transaction_refusal(bytes: Seq<u8>) -> Option<Seq<char>>;

/// The id of the transaction that `bytes` encode, in the byte order of the hash.
pub uninterp spec fn transaction_id(bytes: Seq<u8>) -> Seq<u8>;

/// The encoding of the transaction that `bytes` encode, as `bitcoin::consensus::serialize` writes
/// it.
pub uninterp spec fn transaction_encoding(bytes: Seq<u8>) -> Seq<u8>;

/// Whether `bytes` are exactly one transaction.
pub open spec fn is_transaction(bytes: Seq<u8>) -> bool {
    transaction_refusal(bytes) is None
}

/// `bitcoin::consensus::deserialize::<bitcoin::Transaction>`: it accepts or refuses
/// by the bytes alone, and a refusal has the text that [`transaction_refusal`] names.
#[verifier::external_body]
fn deserialize_transaction(bytes: &[u8]) -> (r: Result<(), String>)
    ensures
        match r {
            Ok(_) => transaction_refusal(bytes@) is None,
            Err(text) => transaction_refusal(bytes@) == Some(text@),
        },
{
    match bitcoin::consensus::deserialize::<bitcoin::Transaction>(bytes) {
        Ok(_) => Ok(()),
        Err(e) => Err(e.to_string()),
    }
}

/// A transaction with witnesses: between the version of four bytes and the lock time of four
/// bytes stand a marker, the inputs and outputs, and the witnesses.
pub open spec fn with_witness(
    version: Seq<u8>,
    body: Seq<u8>,
    witness: Seq<u8>,
    lock_time: Seq<u8>,
) -> Seq<u8> {
    version + seq![0u8, 1u8] + body + witness + lock_time
}

/// Whether `bare` is the transaction that `bytes` encode with its witnesses left out: the same
/// bytes without the marker and the witnesses, as a transaction with at least one input.
pub open spec fn strips_to(bytes: Seq<u8>, bare: Seq<u8>) -> bool {
    &&& is_transaction(bare)
    &&& exists|version: Seq<u8>, body: Seq<u8>, witness: Seq<u8>, lock_time: Seq<u8>|
        {
            &&& bytes == #[trigger] with_witness(version, body, witness, lock_time)
            &&& bare == version + body + lock_time
            &&& version.len() == 4
            &&& lock_time.len() == 4
            &&& body.len() > 0
            &&& body[0] != 0
        }
}

/// Whether two transactions are the same but for their witnesses.
pub open spec fn same_but_for_witnesses(bytes1: Seq<u8>, bytes2: Seq<u8>) -> bool {
    exists|bare: Seq<u8>|
        {
            &&& bytes1 == bare || #[trigger] strips_to(bytes1, bare)
            &&& bytes2 == bare || #[trigger] strips_to(bytes2, bare)
        }
}

/// `bitcoin::Transaction::compute_txid` of the transaction that the bytes encode. The witnesses
/// are not hashed, so the id is that of the transaction without them.
#[verifier::external_body]
fn compute_txid(bytes: &[u8]) -> (txid: [u8; 32])
    requires
        is_transaction(bytes@),
    ensures
        txid@ == transaction_id(bytes@),
        forall|bare: Seq<u8>| #[trigger] strips_to(bytes@, bare) ==> txid@ == transaction_id(bare),
{
    let tx: bitcoin::Transaction = bitcoin::consensus::deserialize(bytes).unwrap();
    bitcoin::hashes::Hash::to_byte_array(tx.compute_txid())
}

/// The text of a transaction id: the bytes from the last to the first, each as two
/// lower-case hexadecimal digits.
pub open spec fn txid_hex(txid: Seq<u8>) -> Seq<char> {
    Seq::new(
        2 * txid.len(),
        |i: int|
            {
                let byte = txid[txid.len() - 1 - i / 2];
                hex_digits()[(if i % 2 == 0 {
                    byte / 16
                } else {
                    byte % 16
                }) as int]
            },
    )
}

/// Whether a text is sixty-four lower-case hexadecimal digits.
pub open spec fn is_id_text(text: Seq<char>) -> bool {
    &&& text.len() == 64
    &&& forall|i: int| 0 <= i < text.len() ==> hex_digits().contains(#[trigger] text[i])
}

/// The text of an id of thirty-two bytes is sixty-four lower-case hexadecimal digits.
pub proof fn txid_hex_is_an_id_text(txid: Seq<u8>)
    requires
        txid.len() == 32,
    ensures
        is_id_text(txid_hex(txid)),
{
    let text = txid_hex(txid);
    assert forall|i: int| 0 <= i < text.len() implies hex_digits().contains(#[trigger] text[i]) by {
        let byte = txid[txid.len() - 1 - i / 2];
        let d: int = if i % 2 == 0 {
            (byte / 16) as int
        } else {
            (byte % 16) as int
        };
        assert(text[i] == hex_digits()[d]);
    }
}

/// The `Display` text of `bitcoin::Txid`: the bytes of the id in reverse order, in
/// lower-case hexadecimal.
#[verifier::external_body]
fn txid_display(txid: &[u8; 32]) -> (s: String)
    ensures
        s@ == txid_hex(txid@),
{
    let id: bitcoin::Txid = bitcoin::hashes::Hash::from_byte_array(*txid);
    id.to_string()
}

/// Why a text is not a transaction.
#[derive(Clone, Debug, PartialEq, Eq)]
pub enum TxError {
    /// The text is not hexadecimal.
    InvalidHex(HexError),
    /// The bytes are not one transaction; the text says what is wrong with them.
    InvalidFormat(String),
}

/// A [`TxError`] with its text as characters.
pub enum TxErrorView {
    InvalidHex(HexError),
    InvalidFormat(Seq<char>),
}

impl View for TxError {
    type V = TxErrorView;

    open spec fn view(&self) -> TxErrorView {
        match *self {
            TxError::InvalidHex(e) => TxErrorView::InvalidHex(e),
            TxError::InvalidFormat(text) => TxErrorView::InvalidFormat(text@),
        }
    }
}

/// The words in which a request learns of a [`TxError`].
pub open spec fn tx_error_message(e: TxErrorView) -> Seq<char> {
    match e {
        TxErrorView::InvalidHex(hex) => "Invalid hex string: "@ + hex_error_display(hex),
        TxErrorView::InvalidFormat(text) => "Invalid transaction format: "@ + text,
    }
}

impl TxError {
    /// The error in words.
    pub fn message(&self) -> (s: String)
        ensures
            s@ == tx_error_message(self@),
    {
        match self {
            TxError::InvalidHex(hex) => {
                let mut s = "Invalid hex string: ".to_owned();
                let detail = hex.message();
                s.append(detail.as_str());
                s
            },
            TxError::InvalidFormat(text) => {
                let mut s = "Invalid transaction format: ".to_owned();
                s.append(text.as_str());
                s
            },
        }
    }
}

/// What a hexadecimal text is as a transaction: its bytes, or why it is none.
pub open spec fn parsed_transaction(text: Seq<char>) -> Result<Seq<u8>, TxErrorView> {
    match hex_decoding(encode_utf8(text)) {
        Err(e) => Err(TxErrorView::InvalidHex(e)),
        Ok(bytes) => match transaction_refusal(bytes) {
            Some(refusal) => Err(TxErrorView::InvalidFormat(refusal)),
            None => Ok(bytes),
        },
    }
}

/// A transaction, held as its encoding together with its id.
#[derive(Debug)]
pub struct Transaction {
    bytes: Vec<u8>,
    txid: [u8; 32],
}

impl View for Transaction {
    type V = Seq<u8>;

    closed spec fn view(&self) -> Seq<u8> {
        self.bytes@
    }
}

impl Transaction {
    /// The id that is held beside the encoding.
    pub closed spec fn held_id(self) -> Seq<u8> {
        self.txid@
    }

    /// The encoding is that of one transaction, and the id, of thirty-two bytes, is that of the
    /// transaction, with or without its witnesses.
    #[verifier::type_invariant]
    pub open spec fn well_formed(self) -> bool {
        &&& is_transaction(self@)
        &&& self.held_id() == transaction_id(self@)
        &&& transaction_id(self@).len() == 32
        &&& forall|bare: Seq<u8>| #[trigger]
            strips_to(self@, bare) ==> transaction_id(self@) == transaction_id(bare)
    }

    /// Takes the bytes as a transaction, if they are exactly one.
    pub fn from_bytes(bytes: Vec<u8>) -> (r: Result<Transaction, String>)
        ensures
            match r {
                Ok(tx) => is_transaction(bytes@) && tx@ == bytes@,
                Err(text) => transaction_refusal(bytes@) == Some(text@),
            },
    {
        match deserialize_transaction(bytes.as_slice()) {
            Ok(_) => {
                let txid = compute_txid(bytes.as_slice());
                Ok(Transaction { bytes, txid })
            },
            Err(text) => Err(text),
        }
    }

    /// Reads a transaction from hexadecimal text.
    pub fn from_hex(text: &str) -> (r: Result<Transaction, TxError>)
        ensures
            match r {
                Ok(tx) => parsed_transaction(text@) == Ok::<Seq<u8>, TxErrorView>(tx@),
                Err(e) => parsed_transaction(text@) == Err::<Seq<u8>, TxErrorView>(e@),
            },
    {
        match decode_hex(text) {
            Err(e) => Err(TxError::InvalidHex(e)),
            Ok(bytes) => match Transaction::from_bytes(bytes) {
                Ok(tx) => Ok(tx),
                Err(refusal) => Err(TxError::InvalidFormat(refusal)),
            },
        }
    }

    /// The encoding of the transaction.
    pub fn bytes(&self) -> (bytes: &Vec<u8>)
        ensures
            bytes@ == self@,
    {
        &self.bytes
    }

    /// The id of the transaction, in the byte order of the hash.
    pub fn txid(&self) -> (txid: [u8; 32])
        ensures
            txid@ == transaction_id(self@),
            transaction_id(self@).len() == 32,
            self.well_formed(),
    {
        proof {
            use_type_invariant(self);
        }
        self.txid
    }

    /// The id of the transaction as text: sixty-four lower-case hexadecimal digits.
    pub fn txid_text(&self) -> (s: String)
        ensures
            s@ == txid_hex(transaction_id(self@)),
            transaction_id(self@).len() == 32,
            is_id_text(s@),
    {
        proof {
            use_type_invariant(self);
            txid_hex_is_an_id_text(transaction_id(self@));
        }
        txid_display(&self.txid)
    }
}

impl Clone for Transaction {
    fn clone(&self) -> (r: Self)
        ensures
            r@ == self@,
    {
        proof {
            use_type_invariant(self);
        }
        let bytes = self.bytes.clone();
        assert(bytes@ =~= self.bytes@);
        Transaction { bytes, txid: self.txid }
    }
}

/// A digit of the text of an id has the value that it stands for.
proof fn lemma_hex_digit(v: int)
    requires
        0 <= v < 16,
    ensures
        hex_digits()[v] as u32 <= 0x7f,
        hex_digit_value(hex_digits()[v] as u8) == Some(v as u8),
{
}

/// Text of digits only begins with as many digits as it has characters.
proof fn lemma_all_digits(text: Seq<u8>)
    requires
        forall|i: int| 0 <= i < text.len() ==> hex_digit_value(#[trigger] text[i]) is Some,
    ensures
        leading_hex(text) == text.len(),
    decreases text.len(),
{
    if text.len() > 0 {
        let rest = text.drop_first();
        assert forall|i: int| 0 <= i < rest.len() implies hex_digit_value(#[trigger] rest[i]) is Some by {
            assert(rest[i] == text[i + 1]);
        }
        lemma_all_digits(rest);
    }
}

/// The text of an id is hexadecimal and stands for the bytes of the id in reverse order.
pub proof fn txid_text_decodes_to_the_id(txid: Seq<u8>)
    ensures
        hex_decoding(encode_utf8(txid_hex(txid))) == Ok::<Seq<u8>, HexError>(txid.reverse()),
{
    let chars = txid_hex(txid);
    let text = encode_utf8(chars);
    assert forall|i: int| 0 <= i < chars.len() implies (#[trigger] chars[i]) as u32 <= 0x7f
        && hex_digit_value(chars[i] as u8) is Some by {
        let byte = txid[txid.len() - 1 - i / 2];
        lemma_hex_digit((byte / 16) as int);
        lemma_hex_digit((byte % 16) as int);
    }
    assert(is_ascii_chars(chars));
    is_ascii_chars_encode_utf8(chars);
    assert forall|i: int| 0 <= i < text.len() implies hex_digit_value(#[trigger] text[i]) is Some by {
        assert(text[i] == chars[i] as u8);
    }
    lemma_all_digits(text);
    assert forall|k: int| 0 <= k < txid.len() implies hex_pairs(text)[k] == txid.reverse()[k] by {
        let byte = txid[txid.len() - 1 - k];
        lemma_hex_digit((byte / 16) as int);
        lemma_hex_digit((byte % 16) as int);
        assert(text[2 * k] == chars[2 * k] as u8);
        assert(text[2 * k + 1] == chars[2 * k + 1] as u8);
        assert((2 * k) / 2 == k && (2 * k) % 2 == 0);
        assert((2 * k + 1) / 2 == k && (2 * k + 1) % 2 == 1);
    }
    assert(hex_pairs(text) =~= txid.reverse());
}

/// Which transaction a text is, or why it is none, does not depend on the case of its letters,
/// but for the case in which a bad character is named.
pub proof fn letter_case_of_a_transaction_does_not_matter(text1: Seq<char>, text2: Seq<char>)
    requires
        same_but_for_case(text1, text2),
    ensures
        parsed_transaction(text1) is Ok <==> parsed_transaction(text2) is Ok,
        match parsed_transaction(text1) {
            Err(TxErrorView::InvalidHex(HexError::InvalidCharacter { .. })) => true,
            parsed => parsed_transaction(text2) == parsed,
        },
{
    case_in_characters_is_case_in_bytes(text1, text2);
    letter_case_does_not_matter(encode_utf8(text1), encode_utf8(text2));
}

/// Transactions that are the same but for their witnesses have the same id.
pub proof fn witnesses_do_not_matter_to_the_id(tx1: Transaction, tx2: Transaction)
    requires
        tx1.well_formed(),
        tx2.well_formed(),
        same_but_for_witnesses(tx1@, tx2@),
    ensures
        transaction_id(tx1@) == transaction_id(tx2@),
        txid_hex(transaction_id(tx1@)) == txid_hex(transaction_id(tx2@)),
{
}

/// A text is refused only where its hexadecimal does not decode, or where `bitcoin` refuses the
/// bytes that it spells, and then with that reason. Any other text is the transaction whose bytes
/// it spells.
pub proof fn a_text_is_the_transaction_that_it_spells(text: Seq<char>, bytes: Seq<u8>)
    requires
        spells(text, bytes),
    ensures
        transaction_refusal(bytes) is None ==> parsed_transaction(text) == Ok::<
            Seq<u8>,
            TxErrorView,
        >(bytes),
        transaction_refusal(bytes) matches Some(reason) ==> parsed_transaction(text) == Err::<
            Seq<u8>,
            TxErrorView,
        >(TxErrorView::InvalidFormat(reason)),
{
    hexadecimal_text_is_decoded(text, bytes);
}

/// A text that spells no bytes is refused as not hexadecimal, for what is wrong with it.
pub proof fn a_text_that_spells_nothing_is_not_hexadecimal(text: Seq<char>)
    requires
        forall|bytes: Seq<u8>| !spells(text, bytes),
    ensures
        hex_decoding(encode_utf8(text)) matches Err(e) && parsed_transaction(text) == Err::<
            Seq<u8>,
            TxErrorView,
        >(TxErrorView::InvalidHex(e)),
{
    if let Ok(bytes) = hex_decoding(encode_utf8(text)) {
        hexadecimal_text_is_decoded(text, bytes);
    }
}

/// What parses as a transaction is one to `bitcoin`, and is spelt by the text.
pub proof fn what_is_accepted_is_a_transaction(text: Seq<char>, bytes: Seq<u8>)
    ensures
        parsed_transaction(text) == Ok::<Seq<u8>, TxErrorView>(bytes) <==> spells(text, bytes)
            && transaction_refusal(bytes) is None,
        is_transaction(bytes) <==> transaction_refusal(bytes) is None,
{
    hexadecimal_text_is_decoded(text, bytes);
}

/// A refusal is told in words that say which of the two it is, and give the reason.
pub proof fn refusals_are_told_in_words(hex: HexError, text: String, reason: Seq<char>)
    ensures
        TxError::InvalidHex(hex)@ == TxErrorView::InvalidHex(hex),
        TxError::InvalidFormat(text)@ == TxErrorView::InvalidFormat(text@),
        tx_error_message(TxErrorView::InvalidHex(hex)) == "Invalid hex string: "@
            + hex_error_display(hex),
        tx_error_message(TxErrorView::InvalidFormat(reason)) == "Invalid transaction format: "@
            + reason,
{
}

/// The text of an id spells its bytes from the last to the first, without capital letters.
pub proof fn an_id_is_written_from_its_last_byte(txid: Seq<u8>)
    ensures
        spells(txid_hex(txid), txid.reverse()),
        forall|i: int|
            0 <= i < txid_hex(txid).len() ==> !('A' <= #[trigger] txid_hex(txid)[i] <= 'Z'),
{
    txid_text_decodes_to_the_id(txid);
    hexadecimal_text_is_decoded(txid_hex(txid), txid.reverse());
    assert forall|i: int| 0 <= i < txid_hex(txid).len() implies !('A' <= #[trigger] txid_hex(
        txid,
    )[i] <= 'Z') by {
        let byte = txid[txid.len() - 1 - i / 2];
        assert(0 <= byte / 16 < 16 && 0 <= byte % 16 < 16);
    }
}

/// Whatever witnesses are put into a transaction, after a marker behind its version and before its
/// lock time, its id stays that of the transaction without them.
pub proof fn an_id_is_that_without_witnesses(
    tx: Transaction,
    version: Seq<u8>,
    body: Seq<u8>,
    witness: Seq<u8>,
    lock_time: Seq<u8>,
)
    requires
        tx.well_formed(),
        tx@ == version + seq![0u8, 1u8] + body + witness + lock_time,
        version.len() == 4,
        lock_time.len() == 4,
        body.len() > 0,
        body[0] != 0,
        transaction_refusal(version + body + lock_time) is None,
    ensures
        transaction_id(tx@) == transaction_id(version + body + lock_time),
{
    let bare = version + body + lock_time;
    assert(tx@ == with_witness(version, body, witness, lock_time));
    assert(strips_to(tx@, bare));
}

} // verus!
