use tx_pigeon::onion::{onion_from_digest, tor_v3_onion_from_pubkey};

#[test]
fn the_name_of_a_known_service() {
    let raw = hex::decode("1d04a1d04a338c6e6ae970bfabee49049d6702250984ca950c01673f4ec034ad").unwrap();
    let mut key = [0u8; 32];
    key.copy_from_slice(&raw);
    assert_eq!(
        tor_v3_onion_from_pubkey(&key),
        "duckduckgogg42xjoc72x3sjasowoarfbgcmvfimaftt6twagswzczad.onion"
    );
}

#[test]
fn names_of_simple_keys() {
    assert_eq!(
        tor_v3_onion_from_pubkey(&[0u8; 32]),
        "aaaaaaaaaaaaaaaaaaaaaaaaaaaaaaaaaaaaaaaaaaaaaaaaaaam2dqd.onion"
    );
    let mut key = [0u8; 32];
    for i in 0..32usize {
        key[i] = i as u8;
    }
    assert_eq!(
        tor_v3_onion_from_pubkey(&key),
        "aaaqeayeaudaocajbifqydiob4ibceqtcqkrmfyydenbwha5dyp3kead.onion"
    );
}

#[test]
fn the_digest_ends_the_name() {
    assert_eq!(
        onion_from_digest(&[0u8; 32], &[0xffu8; 32]),
        "aaaaaaaaaaaaaaaaaaaaaaaaaaaaaaaaaaaaaaaaaaaaaaaaaaap77yd.onion"
    );
}

#[test]
fn a_name_has_sixty_two_characters() {
    let name = tor_v3_onion_from_pubkey(&[0xa5u8; 32]);
    assert_eq!(name.len(), 62);
    assert!(name.ends_with(".onion"));
}

#[test]
fn different_keys_have_different_names() {
    let mut key = [0u8; 32];
    let name = onion_from_digest(&key, &[0u8; 32]);
    for i in 0..32usize {
        key[i] = 1;
        assert_ne!(onion_from_digest(&key, &[0u8; 32]), name);
        key[i] = 0;
    }
}
