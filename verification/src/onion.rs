//! Names of version 3 onion services.

use data_encoding::BASE32_NOPAD;
use sha3::Digest;
use vstd::prelude::*;
use vstd::utf8::{encode_utf8, is_ascii_chars_encode_utf8};

use crate::text::ascii_lower;

verus! {

/// The SHA3-256 digest of `data`.
pub uninterp spec fn sha3_256_digest(data: Seq<u8>) -> Seq<u8>;

/// `sha3::Sha3_256` over the whole of `data`.
#[verifier::external_body]
fn sha3_256(data: &[u8]) -> (digest: [u8; 32])
    ensures
        digest@ == sha3_256_digest(data@),
{
    let mut hasher = sha3::Sha3_256::new();
    hasher.update(data);
    hasher.finalize().into()
}

/// The symbols of base32, in order of their value.
pub open spec fn base32_symbols() -> Seq<char> {
    seq![
        'A', 'B', 'C', 'D', 'E', 'F', 'G', 'H', 'I', 'J', 'K', 'L', 'M', 'N', 'O', 'P',
        'Q', 'R', 'S', 'T', 'U', 'V', 'W', 'X', 'Y', 'Z', '2', '3', '4', '5', '6', '7',
    ]
}

/// The five bits that begin `offset` bits into a sixteen-bit number, the first bit
/// being the most significant one.
pub open spec fn five_bits(pair: int, offset: int) -> int {
    if offset == 0 {
        (pair / 2048) % 32
    } else if offset == 1 {
        (pair / 1024) % 32
    } else if offset == 2 {
        (pair / 512) % 32
    } else if offset == 3 {
        (pair / 256) % 32
    } else if offset == 4 {
        (pair / 128) % 32
    } else if offset == 5 {
        (pair / 64) % 32
    } else if offset == 6 {
        (pair / 32) % 32
    } else {
        (pair / 16) % 32
    }
}

/// The `i`-th group of five bits of `bytes`; bits beyond the end are zero.
pub open spec fn base32_group(bytes: Seq<u8>, i: int) -> int {
    let at = 5 * i / 8;
    let next = if at + 1 < bytes.len() {
        bytes[at + 1] as int
    } else {
        0
    };
    five_bits(256 * bytes[at] + next, 5 * i % 8)
}

/// Base32 in upper case and without padding.
pub open spec fn base32(bytes: Seq<u8>) -> Seq<char> {
    Seq::new(
        (8 * bytes.len() + 4) / 5,
        |i: int| base32_symbols()[base32_group(bytes, i)],
    )
}

/// `data_encoding::BASE32_NOPAD.encode`: the bits of the input in groups of five, the
/// most significant first, each written as its symbol.
#[verifier::external_body]
fn base32_nopad(bytes: &[u8]) -> (s: String)
    requires
        bytes@.len() * 512 <= usize::MAX,
    ensures
        s@ == base32(bytes@),
{
    BASE32_NOPAD.encode(bytes)
}

/// `str::to_ascii_lowercase`: each ASCII letter in its lower case, and every other
/// character as it is.
pub assume_specification[ str::to_ascii_lowercase ](s: &str) -> (r: String)
    ensures
        r@ == s@.map_values(|c: char| ascii_lower(c)),
;

/// What is hashed for the checksum of the service with the public key `pubkey`.
pub open spec fn checksum_input(pubkey: Seq<u8>) -> Seq<u8> {
    encode_utf8(".onion checksum"@) + pubkey + seq![3u8]
}

/// The name of a service, given its public key and the digest for its checksum: in
/// lower-case base32, the key, the first two bytes of the digest and the version.
pub open spec fn onion_text(pubkey: Seq<u8>, digest: Seq<u8>) -> Seq<char> {
    base32(pubkey + digest.subrange(0, 2) + seq![3u8]).map_values(|c: char| ascii_lower(c))
        + ".onion"@
}

/// The name of the service with the public key `pubkey`.
pub open spec fn onion_name(pubkey: Seq<u8>) -> Seq<char> {
    onion_text(pubkey, sha3_256_digest(checksum_input(pubkey)))
}

/// Writes the name of a service from its public key and the digest for its checksum.
pub fn onion_from_digest(pubkey: &[u8; 32], digest: &[u8; 32]) -> (s: String)
    ensures
        s@ == onion_text(pubkey@, digest@),
{
    let mut raw: Vec<u8> = Vec::with_capacity(35);
    raw.extend_from_slice(pubkey.as_slice());
    raw.push(digest[0]);
    raw.push(digest[1]);
    raw.push(3u8);
    assert(raw@ =~= pubkey@ + digest@.subrange(0, 2) + seq![3u8]);
    let mut s = base32_nopad(raw.as_slice()).as_str().to_ascii_lowercase();
    s.append(".onion");
    s
}

/// Writes the name of the service with the public key `pubkey`: fifty-six symbols and the
/// suffix `.onion`.
pub fn tor_v3_onion_from_pubkey(pubkey: &[u8; 32]) -> (s: String)
    ensures
        s@ == onion_name(pubkey@),
        sha3_256_digest(checksum_input(pubkey@)).len() == 32,
        s@.len() == 62,
{
    let mut data: Vec<u8> = Vec::new();
    data.extend_from_slice(".onion checksum".as_bytes());
    data.extend_from_slice(pubkey.as_slice());
    data.push(3u8);
    assert(data@ =~= checksum_input(pubkey@));
    let digest = sha3_256(data.as_slice());
    proof {
        onion_text_length(pubkey@, digest@);
    }
    onion_from_digest(pubkey, &digest)
}

/// The groups of five bits of two bytes, in terms of the bytes.
proof fn lemma_five_bits(x: u8, y: u8)
    ensures
        five_bits(256 * x + y, 0) == x / 8,
        five_bits(256 * x + y, 1) == (x / 4) % 32,
        five_bits(256 * x + y, 2) == (x / 2) % 32,
        five_bits(256 * x + y, 3) == x % 32,
        five_bits(256 * x + y, 4) == 2 * (x % 16) + y / 128,
        five_bits(256 * x + y, 5) == 4 * (x % 8) + y / 64,
        five_bits(256 * x + y, 6) == 8 * (x % 4) + y / 32,
        five_bits(256 * x + y, 7) == 16 * (x % 2) + y / 16,
{
    assert((256 * x + y) / 2048 % 32 == x / 8) by (bit_vector);
    assert((256 * x + y) / 1024 % 32 == (x / 4) % 32) by (bit_vector);
    assert((256 * x + y) / 512 % 32 == (x / 2) % 32) by (bit_vector);
    assert((256 * x + y) / 256 % 32 == x % 32) by (bit_vector);
    assert((256 * x + y) / 128 % 32 == 2 * (x % 16) + y / 128) by (bit_vector);
    assert((256 * x + y) / 64 % 32 == 4 * (x % 8) + y / 64) by (bit_vector);
    assert((256 * x + y) / 32 % 32 == 8 * (x % 4) + y / 32) by (bit_vector);
    assert((256 * x + y) / 16 % 32 == 16 * (x % 2) + y / 16) by (bit_vector);
}

/// Five bytes put together again from the eight groups of five bits.
proof fn lemma_block_regrouped(b0: u8, b1: u8, b2: u8, b3: u8, b4: u8)
    ensures
        b0 == 8 * (b0 / 8) + (4 * (b0 % 8) + b1 / 64) / 4,
        b1 == 64 * ((4 * (b0 % 8) + b1 / 64) % 4) + 2 * ((b1 / 2) % 32) + (16 * (b1 % 2) + b2
            / 16) / 16,
        b2 == 16 * ((16 * (b1 % 2) + b2 / 16) % 16) + (2 * (b2 % 16) + b3 / 128) / 2,
        b3 == 128 * ((2 * (b2 % 16) + b3 / 128) % 2) + 4 * ((b3 / 4) % 32) + (8 * (b3 % 4) + b4
            / 32) / 8,
        b4 == 32 * ((8 * (b3 % 4) + b4 / 32) % 8) + b4 % 32,
{
    assert(b0 == 8 * (b0 / 8) + (4 * (b0 % 8) + b1 / 64) / 4) by (bit_vector);
    assert(b1 == 64 * ((4 * (b0 % 8) + b1 / 64) % 4) + 2 * ((b1 / 2) % 32) + (16 * (b1 % 2) + b2
        / 16) / 16) by (bit_vector);
    assert(b2 == 16 * ((16 * (b1 % 2) + b2 / 16) % 16) + (2 * (b2 % 16) + b3 / 128) / 2)
        by (bit_vector);
    assert(b3 == 128 * ((2 * (b2 % 16) + b3 / 128) % 2) + 4 * ((b3 / 4) % 32) + (8 * (b3 % 4) + b4
        / 32) / 8) by (bit_vector);
    assert(b4 == 32 * ((8 * (b3 % 4) + b4 / 32) % 8) + b4 % 32) by (bit_vector);
}

/// Eight groups of five bits, in terms of the bytes at `5 * b` to `5 * b + 4`.
proof fn lemma_block_groups(bytes: Seq<u8>, b: int)
    requires
        0 <= b,
        5 * b + 5 <= bytes.len(),
    ensures
        base32_group(bytes, 8 * b) == bytes[5 * b] / 8,
        base32_group(bytes, 8 * b + 1) == 4 * (bytes[5 * b] % 8) + bytes[5 * b + 1] / 64,
        base32_group(bytes, 8 * b + 2) == (bytes[5 * b + 1] / 2) % 32,
        base32_group(bytes, 8 * b + 3) == 16 * (bytes[5 * b + 1] % 2) + bytes[5 * b + 2] / 16,
        base32_group(bytes, 8 * b + 4) == 2 * (bytes[5 * b + 2] % 16) + bytes[5 * b + 3] / 128,
        base32_group(bytes, 8 * b + 5) == (bytes[5 * b + 3] / 4) % 32,
        base32_group(bytes, 8 * b + 6) == 8 * (bytes[5 * b + 3] % 4) + bytes[5 * b + 4] / 32,
        base32_group(bytes, 8 * b + 7) == bytes[5 * b + 4] % 32,
{
    let b0 = bytes[5 * b];
    let b1 = bytes[5 * b + 1];
    let b2 = bytes[5 * b + 2];
    let b3 = bytes[5 * b + 3];
    let b4 = bytes[5 * b + 4];
    let b5 = if 5 * b + 5 < bytes.len() {
        bytes[5 * b + 5]
    } else {
        0
    };
    lemma_five_bits(b0, b1);
    lemma_five_bits(b1, b2);
    lemma_five_bits(b2, b3);
    lemma_five_bits(b3, b4);
    lemma_five_bits(b4, b5);
    assert(5 * (8 * b) / 8 == 5 * b && 5 * (8 * b) % 8 == 0);
    assert(5 * (8 * b + 1) / 8 == 5 * b && 5 * (8 * b + 1) % 8 == 5);
    assert(5 * (8 * b + 2) / 8 == 5 * b + 1 && 5 * (8 * b + 2) % 8 == 2);
    assert(5 * (8 * b + 3) / 8 == 5 * b + 1 && 5 * (8 * b + 3) % 8 == 7);
    assert(5 * (8 * b + 4) / 8 == 5 * b + 2 && 5 * (8 * b + 4) % 8 == 4);
    assert(5 * (8 * b + 5) / 8 == 5 * b + 3 && 5 * (8 * b + 5) % 8 == 1);
    assert(5 * (8 * b + 6) / 8 == 5 * b + 3 && 5 * (8 * b + 6) % 8 == 6);
    assert(5 * (8 * b + 7) / 8 == 5 * b + 4 && 5 * (8 * b + 7) % 8 == 3);
}

/// The bytes at `5 * b` to `5 * b + 4` are determined by eight groups of five bits.
proof fn lemma_block_from_groups(bytes: Seq<u8>, b: int)
    requires
        0 <= b,
        5 * b + 5 <= bytes.len(),
    ensures
        bytes[5 * b] == 8 * base32_group(bytes, 8 * b) + base32_group(bytes, 8 * b + 1) / 4,
        bytes[5 * b + 1] == 64 * (base32_group(bytes, 8 * b + 1) % 4) + 2 * base32_group(
            bytes,
            8 * b + 2,
        ) + base32_group(bytes, 8 * b + 3) / 16,
        bytes[5 * b + 2] == 16 * (base32_group(bytes, 8 * b + 3) % 16) + base32_group(
            bytes,
            8 * b + 4,
        ) / 2,
        bytes[5 * b + 3] == 128 * (base32_group(bytes, 8 * b + 4) % 2) + 4 * base32_group(
            bytes,
            8 * b + 5,
        ) + base32_group(bytes, 8 * b + 6) / 8,
        bytes[5 * b + 4] == 32 * (base32_group(bytes, 8 * b + 6) % 8) + base32_group(
            bytes,
            8 * b + 7,
        ),
{
    lemma_block_groups(bytes, b);
    lemma_block_regrouped(
        bytes[5 * b],
        bytes[5 * b + 1],
        bytes[5 * b + 2],
        bytes[5 * b + 3],
        bytes[5 * b + 4],
    );
}

/// Two symbols of base32 that agree in lower case stand for the same value.
proof fn lemma_symbols_differ(x: int, y: int)
    requires
        0 <= x < 32,
        0 <= y < 32,
        ascii_lower(base32_symbols()[x]) == ascii_lower(base32_symbols()[y]),
    ensures
        x == y,
{
}

/// The name of a service has fifty-six symbols before its suffix `.onion`.
pub proof fn onion_text_length(pubkey: Seq<u8>, digest: Seq<u8>)
    requires
        pubkey.len() == 32,
        digest.len() == 32,
    ensures
        onion_text(pubkey, digest).len() == 62,
        onion_text(pubkey, digest).subrange(56, 62) == ".onion"@,
{
    reveal_strlit(".onion");
    assert(onion_text(pubkey, digest).subrange(56, 62) =~= ".onion"@);
}

/// Services with different public keys have different names, whatever the digests
/// for their checksums are.
pub proof fn onion_text_determines_key(key1: Seq<u8>, digest1: Seq<u8>, key2: Seq<u8>, digest2: Seq<u8>)
    requires
        key1.len() == 32,
        key2.len() == 32,
        digest1.len() == 32,
        digest2.len() == 32,
        onion_text(key1, digest1) == onion_text(key2, digest2),
    ensures
        key1 == key2,
{
    let raw1 = key1 + digest1.subrange(0, 2) + seq![3u8];
    let raw2 = key2 + digest2.subrange(0, 2) + seq![3u8];
    let text = onion_text(key1, digest1);
    assert forall|i: int| 0 <= i < 56 implies #[trigger] base32_group(raw1, i) == base32_group(
        raw2,
        i,
    ) by {
        assert(text[i] == ascii_lower(base32_symbols()[base32_group(raw1, i)]));
        assert(text[i] == onion_text(key2, digest2)[i]);
        assert(text[i] == ascii_lower(base32_symbols()[base32_group(raw2, i)]));
        lemma_symbols_differ(base32_group(raw1, i), base32_group(raw2, i));
    }
    assert forall|m: int| 0 <= m < 32 implies key1[m] == key2[m] by {
        lemma_block_from_groups(raw1, m / 5);
        lemma_block_from_groups(raw2, m / 5);
        assert(raw1[m] == key1[m]);
        assert(raw2[m] == key2[m]);
    }
    assert(key1 =~= key2);
}

/// Services with different public keys have different names.
pub proof fn onion_name_determines_key(key1: Seq<u8>, key2: Seq<u8>)
    requires
        key1.len() == 32,
        key2.len() == 32,
        sha3_256_digest(checksum_input(key1)).len() == 32,
        sha3_256_digest(checksum_input(key2)).len() == 32,
        onion_name(key1) == onion_name(key2),
    ensures
        key1 == key2,
{
    onion_text_determines_key(
        key1,
        sha3_256_digest(checksum_input(key1)),
        key2,
        sha3_256_digest(checksum_input(key2)),
    );
}

/// The bytes of the text `.onion checksum`.
pub open spec fn checksum_prefix() -> Seq<u8> {
    seq![
        0x2E, 0x6F, 0x6E, 0x69, 0x6F, 0x6E, 0x20, 0x63, 0x68, 0x65, 0x63, 0x6B, 0x73, 0x75, 0x6D,
    ]
}

/// What is hashed for the checksum is a fixed text of fifteen bytes, then every byte of the key as
/// it is, then the version: so it tells the key.
pub proof fn the_checksum_is_taken_over_the_key(pubkey: Seq<u8>)
    ensures
        checksum_input(pubkey).len() == 16 + pubkey.len(),
        checksum_input(pubkey).subrange(0, 15) == checksum_prefix(),
        checksum_input(pubkey).subrange(15, 15 + pubkey.len() as int) == pubkey,
        checksum_input(pubkey).last() == 3,
        checksum_input(pubkey) == checksum_prefix() + pubkey + seq![3u8],
{
    reveal_strlit(".onion checksum");
    is_ascii_chars_encode_utf8(".onion checksum"@);
    assert(encode_utf8(".onion checksum"@) =~= checksum_prefix());
    assert(checksum_input(pubkey) =~= checksum_prefix() + pubkey + seq![3u8]);
    assert(checksum_input(pubkey).subrange(0, 15) =~= checksum_prefix());
    assert(checksum_input(pubkey).subrange(15, 15 + pubkey.len() as int) =~= pubkey);
}

/// The bit at a place of a byte, of which place 0 is the most significant.
pub open spec fn bit_in_byte(b: u8, place: int) -> int {
    if place == 0 {
        b as int / 128 % 2
    } else if place == 1 {
        b as int / 64 % 2
    } else if place == 2 {
        b as int / 32 % 2
    } else if place == 3 {
        b as int / 16 % 2
    } else if place == 4 {
        b as int / 8 % 2
    } else if place == 5 {
        b as int / 4 % 2
    } else if place == 6 {
        b as int / 2 % 2
    } else {
        b as int % 2
    }
}

/// The `n`-th bit of `bytes`.
pub open spec fn bit_at(bytes: Seq<u8>, n: int) -> int {
    bit_in_byte(bytes[n / 8], n % 8)
}

/// The value of a symbol in the name of a service: `a` to `z` come first, then `2` to `7`.
pub open spec fn symbol_value(c: char) -> int {
    if 'a' <= c <= 'z' {
        c as int - 'a' as int
    } else if '2' <= c <= '7' {
        c as int - '2' as int + 26
    } else {
        -1
    }
}

/// A symbol in lower case has the value that it was written for.
proof fn lemma_symbol_value(v: int)
    requires
        0 <= v < 32,
    ensures
        symbol_value(ascii_lower(base32_symbols()[v])) == v,
{
}

/// The groups of five bits of two bytes, bit by bit.
proof fn lemma_five_single_bits(x: u8, y: u8)
    ensures
        five_bits(256 * x + y, 0) == 16 * (x / 128 % 2) + 8 * (x / 64 % 2) + 4 * (x / 32 % 2) + 2 * (
        x / 16 % 2) + x / 8 % 2,
        five_bits(256 * x + y, 1) == 16 * (x / 64 % 2) + 8 * (x / 32 % 2) + 4 * (x / 16 % 2) + 2 * (x
            / 8 % 2) + x / 4 % 2,
        five_bits(256 * x + y, 2) == 16 * (x / 32 % 2) + 8 * (x / 16 % 2) + 4 * (x / 8 % 2) + 2 * (x
            / 4 % 2) + x / 2 % 2,
        five_bits(256 * x + y, 3) == 16 * (x / 16 % 2) + 8 * (x / 8 % 2) + 4 * (x / 4 % 2) + 2 * (x
            / 2 % 2) + x % 2,
        five_bits(256 * x + y, 4) == 16 * (x / 8 % 2) + 8 * (x / 4 % 2) + 4 * (x / 2 % 2) + 2 * (x
            % 2) + y / 128 % 2,
        five_bits(256 * x + y, 5) == 16 * (x / 4 % 2) + 8 * (x / 2 % 2) + 4 * (x % 2) + 2 * (y / 128
            % 2) + y / 64 % 2,
        five_bits(256 * x + y, 6) == 16 * (x / 2 % 2) + 8 * (x % 2) + 4 * (y / 128 % 2) + 2 * (y / 64
            % 2) + y / 32 % 2,
        five_bits(256 * x + y, 7) == 16 * (x % 2) + 8 * (y / 128 % 2) + 4 * (y / 64 % 2) + 2 * (y
            / 32 % 2) + y / 16 % 2,
{
    lemma_five_bits(x, y);
    assert(x / 8 == 16 * (x / 128 % 2) + 8 * (x / 64 % 2) + 4 * (x / 32 % 2) + 2 * (x / 16 % 2) + x
        / 8 % 2) by (bit_vector);
    assert((x / 4) % 32 == 16 * (x / 64 % 2) + 8 * (x / 32 % 2) + 4 * (x / 16 % 2) + 2 * (x / 8 % 2)
        + x / 4 % 2) by (bit_vector);
    assert((x / 2) % 32 == 16 * (x / 32 % 2) + 8 * (x / 16 % 2) + 4 * (x / 8 % 2) + 2 * (x / 4 % 2)
        + x / 2 % 2) by (bit_vector);
    assert(x % 32 == 16 * (x / 16 % 2) + 8 * (x / 8 % 2) + 4 * (x / 4 % 2) + 2 * (x / 2 % 2) + x % 2)
        by (bit_vector);
    assert(2 * (x % 16) + y / 128 == 16 * (x / 8 % 2) + 8 * (x / 4 % 2) + 4 * (x / 2 % 2) + 2 * (x
        % 2) + y / 128 % 2) by (bit_vector);
    assert(4 * (x % 8) + y / 64 == 16 * (x / 4 % 2) + 8 * (x / 2 % 2) + 4 * (x % 2) + 2 * (y / 128
        % 2) + y / 64 % 2) by (bit_vector);
    assert(8 * (x % 4) + y / 32 == 16 * (x / 2 % 2) + 8 * (x % 2) + 4 * (y / 128 % 2) + 2 * (y / 64
        % 2) + y / 32 % 2) by (bit_vector);
    assert(16 * (x % 2) + y / 16 == 16 * (x % 2) + 8 * (y / 128 % 2) + 4 * (y / 64 % 2) + 2 * (y / 32
        % 2) + y / 16 % 2) by (bit_vector);
}

/// The bit at a place of two bytes.
spec fn bit_in_pair(x: u8, y: u8, place: int) -> int {
    if place < 8 {
        bit_in_byte(x, place)
    } else {
        bit_in_byte(y, place - 8)
    }
}

/// The group of five bits at an offset into two bytes, bit by bit.
proof fn lemma_five_bits_of_pair(x: u8, y: u8, offset: int)
    requires
        0 <= offset < 8,
    ensures
        five_bits(256 * x + y, offset) == 16 * bit_in_pair(x, y, offset) + 8 * bit_in_pair(
            x,
            y,
            offset + 1,
        ) + 4 * bit_in_pair(x, y, offset + 2) + 2 * bit_in_pair(x, y, offset + 3) + bit_in_pair(
            x,
            y,
            offset + 4,
        ),
        0 <= five_bits(256 * x + y, offset) < 32,
{
    lemma_five_single_bits(x, y);
}

/// The bit at a place of two bytes that stand in a row.
proof fn lemma_bit_of_pair(bytes: Seq<u8>, at: int, place: int, y: u8)
    requires
        0 <= place < 16,
        place >= 8 ==> y == bytes[at + 1],
    ensures
        bit_at(bytes, 8 * at + place) == bit_in_pair(bytes[at], y, place),
{
    let n = 8 * at + place;
    if place < 8 {
        assert(n / 8 == at && n % 8 == place);
    } else {
        assert(n / 8 == at + 1 && n % 8 == place - 8);
    }
}

/// A group of five bits is the five bits at its place, where all of them are there.
proof fn lemma_group_bits(bytes: Seq<u8>, i: int)
    requires
        0 <= i,
        5 * i + 5 <= 8 * bytes.len(),
    ensures
        base32_group(bytes, i) == 16 * bit_at(bytes, 5 * i) + 8 * bit_at(bytes, 5 * i + 1) + 4
            * bit_at(bytes, 5 * i + 2) + 2 * bit_at(bytes, 5 * i + 3) + bit_at(bytes, 5 * i + 4),
        0 <= base32_group(bytes, i) < 32,
{
    let at = 5 * i / 8;
    let offset = 5 * i % 8;
    let y: u8 = if at + 1 < bytes.len() {
        bytes[at + 1]
    } else {
        0
    };
    assert(5 * i == 8 * at + offset && 0 <= offset < 8);
    lemma_five_bits_of_pair(bytes[at], y, offset);
    lemma_bit_of_pair(bytes, at, offset, y);
    lemma_bit_of_pair(bytes, at, offset + 1, y);
    lemma_bit_of_pair(bytes, at, offset + 2, y);
    lemma_bit_of_pair(bytes, at, offset + 3, y);
    lemma_bit_of_pair(bytes, at, offset + 4, y);
    assert(8 * at + (offset + 1) == 5 * i + 1);
    assert(8 * at + (offset + 2) == 5 * i + 2);
    assert(8 * at + (offset + 3) == 5 * i + 3);
    assert(8 * at + (offset + 4) == 5 * i + 4);
}

/// The name of a service is its suffix after fifty-six symbols, which spell, bit by bit, the key,
/// the first two bytes of the digest over text, key and version, and the version.
pub proof fn a_name_spells_key_checksum_and_version(pubkey: Seq<u8>, digest: Seq<u8>)
    requires
        pubkey.len() == 32,
        digest == sha3_256_digest(checksum_prefix() + pubkey + seq![3u8]),
        digest.len() == 32,
    ensures
        onion_name(pubkey).len() == 62,
        onion_name(pubkey).subrange(56, 62) == seq!['.', 'o', 'n', 'i', 'o', 'n'],
        ({
            let spelt = pubkey.push(digest[0]).push(digest[1]).push(3u8);
            forall|i: int|
                0 <= i < 56 ==> symbol_value(#[trigger] onion_name(pubkey)[i]) == 16 * bit_at(
                    spelt,
                    5 * i,
                ) + 8 * bit_at(spelt, 5 * i + 1) + 4 * bit_at(spelt, 5 * i + 2) + 2 * bit_at(
                    spelt,
                    5 * i + 3,
                ) + bit_at(spelt, 5 * i + 4)
        }),
{
    the_checksum_is_taken_over_the_key(pubkey);
    onion_text_length(pubkey, digest);
    reveal_strlit(".onion");
    assert(".onion"@ =~= seq!['.', 'o', 'n', 'i', 'o', 'n']);
    let spelt = pubkey.push(digest[0]).push(digest[1]).push(3u8);
    assert(pubkey + digest.subrange(0, 2) + seq![3u8] =~= spelt);
    assert forall|i: int| 0 <= i < 56 implies symbol_value(#[trigger] onion_name(pubkey)[i]) == 16
        * bit_at(spelt, 5 * i) + 8 * bit_at(spelt, 5 * i + 1) + 4 * bit_at(spelt, 5 * i + 2) + 2
        * bit_at(spelt, 5 * i + 3) + bit_at(spelt, 5 * i + 4) by {
        lemma_group_bits(spelt, i);
        lemma_symbol_value(base32_group(spelt, i));
        assert(onion_name(pubkey)[i] == ascii_lower(base32_symbols()[base32_group(spelt, i)]));
    }
}

} // verus!
