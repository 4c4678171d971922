use aes_gcm::{AeadInPlace, Aes128Gcm, KeyInit};
use destiny_pkg::crypto::{parse_keys, register_pkg_key, KeyTable, PkgGcmState};
use destiny_pkg::error::PkgError;
use destiny_pkg::version::{DestinyVersion, GameVersion, MarathonVersion};

const KEY_0: [u8; 16] =
    [0xD6, 0x2A, 0xB2, 0xC1, 0x0C, 0xC0, 0x1B, 0xC5, 0x35, 0xDB, 0x7B, 0x86, 0x55, 0xC7, 0xDC, 0x3B];
const KEY_1: [u8; 16] =
    [0x3A, 0x4A, 0x5D, 0x36, 0x73, 0xA6, 0x60, 0x58, 0x7E, 0x63, 0xE6, 0x76, 0xE4, 0x08, 0x92, 0xB5];
const NONCE_BASE: [u8; 12] = [0x84, 0xDF, 0x11, 0xC0, 0xAC, 0xAB, 0xFA, 0x20, 0x33, 0x11, 0x26, 0x99];

fn seal(key: &[u8; 16], nonce: &[u8; 12], plain: &[u8]) -> (Vec<u8>, [u8; 16]) {
    let cipher = Aes128Gcm::new(key.into());
    let mut data = plain.to_vec();
    let tag = cipher.encrypt_in_place_detached(nonce.into(), &[], &mut data).unwrap();
    let mut out = [0u8; 16];
    out.copy_from_slice(tag.as_slice());
    (data, out)
}

fn nonce_of(pkg_id: u16, marker: u8) -> [u8; 12] {
    let mut nonce = NONCE_BASE;
    nonce[0] ^= (pkg_id >> 8) as u8;
    nonce[1] = marker;
    nonce[11] ^= (pkg_id & 0xff) as u8;
    nonce
}

fn plain_text() -> Vec<u8> {
    (0..1000u32).map(|i| (i * 7 % 251) as u8).collect()
}

#[test]
fn block_with_flags_3_is_opened_with_the_first_key() {
    let version = GameVersion::Destiny(DestinyVersion::Destiny2Shadowkeep);
    let state = PkgGcmState::new(0x0123, version, 0, &KeyTable::new());
    let nonce = nonce_of(0x0123, 0xf9);
    assert_eq!(nonce, [0x85, 0xf9, 0x11, 0xc0, 0xac, 0xab, 0xfa, 0x20, 0x33, 0x11, 0x26, 0xba]);
    let (sealed, tag) = seal(&KEY_0, &nonce, &plain_text());
    assert_ne!(sealed, plain_text());
    let mut data = sealed.clone();
    assert_eq!(state.decrypt_block_in_place(0x3, &tag, &mut data), Ok(()));
    assert_eq!(data, plain_text());
}

#[test]
fn later_generations_use_another_nonce_marker() {
    let version = GameVersion::Destiny(DestinyVersion::Destiny2BeyondLight);
    let state = PkgGcmState::new(0x0a59, version, 0, &KeyTable::new());
    let (sealed, tag) = seal(&KEY_0, &nonce_of(0x0a59, 0xea), &plain_text());
    let mut data = sealed.clone();
    assert_eq!(state.decrypt_block_in_place(0x2, &tag, &mut data), Ok(()));
    assert_eq!(data, plain_text());
    // The marker of the earlier generations does not open it.
    let (sealed, tag) = seal(&KEY_0, &nonce_of(0x0a59, 0xf9), &plain_text());
    let mut data = sealed.clone();
    assert_eq!(state.decrypt_block_in_place(0x2, &tag, &mut data), Err(PkgError::DecryptFailed));
    assert_eq!(data, sealed);
}

#[test]
fn forsaken_and_beta_use_the_early_marker() {
    for v in [DestinyVersion::Destiny2Beta, DestinyVersion::Destiny2Forsaken, DestinyVersion::Destiny2Shadowkeep] {
        let state = PkgGcmState::new(7, GameVersion::Destiny(v), 0, &KeyTable::new());
        let (sealed, tag) = seal(&KEY_0, &nonce_of(7, 0xf9), &plain_text());
        let mut data = sealed;
        assert_eq!(state.decrypt_block_in_place(0x2, &tag, &mut data), Ok(()));
        assert_eq!(data, plain_text());
    }
}

#[test]
fn flag_4_selects_the_second_key() {
    let version = GameVersion::Destiny(DestinyVersion::Destiny2Shadowkeep);
    let state = PkgGcmState::new(0x59, version, 0, &KeyTable::new());
    let (sealed, tag) = seal(&KEY_1, &nonce_of(0x59, 0xf9), &plain_text());
    let mut data = sealed.clone();
    assert_eq!(state.decrypt_block_in_place(0x6, &tag, &mut data), Ok(()));
    assert_eq!(data, plain_text());
    // Without the flag the first key is tried and fails.
    let mut data = sealed.clone();
    assert_eq!(state.decrypt_block_in_place(0x2, &tag, &mut data), Err(PkgError::DecryptFailed));
    assert_eq!(data, sealed);
}

#[test]
fn wrong_tag_fails_and_leaves_the_data() {
    let version = GameVersion::Destiny(DestinyVersion::Destiny2Shadowkeep);
    let state = PkgGcmState::new(0x59, version, 0, &KeyTable::new());
    let (sealed, mut tag) = seal(&KEY_0, &nonce_of(0x59, 0xf9), &plain_text());
    tag[0] ^= 1;
    let mut data = sealed.clone();
    assert_eq!(state.decrypt_block_in_place(0x3, &tag, &mut data), Err(PkgError::DecryptFailed));
    assert_eq!(data, sealed);
}

#[test]
fn group_key_of_an_unregistered_group_is_unavailable() {
    let version = GameVersion::Destiny(DestinyVersion::Destiny2WitchQueen);
    let mut keys = KeyTable::new();
    register_pkg_key(&mut keys, 0x1111, [1u8; 16], [2u8; 12]);
    let state = PkgGcmState::new(0x59, version, 0x2222, &keys);
    let (sealed, tag) = seal(&[1u8; 16], &[2u8; 12], &plain_text());
    let mut data = sealed.clone();
    assert_eq!(state.decrypt_block_in_place(0xB, &tag, &mut data), Err(PkgError::RedactedUnavailable));
    assert_eq!(data, sealed);
}

#[test]
fn group_key_opens_blocks_of_its_group() {
    let version = GameVersion::Destiny(DestinyVersion::Destiny2WitchQueen);
    let mut keys = KeyTable::new();
    register_pkg_key(&mut keys, 0x2222, [1u8; 16], [2u8; 12]);
    assert_eq!(keys.len(), 1);
    let state = PkgGcmState::new(0x59, version, 0x2222, &keys);
    let (sealed, tag) = seal(&[1u8; 16], &[2u8; 12], &plain_text());
    let mut data = sealed.clone();
    assert_eq!(state.decrypt_block_in_place(0xB, &tag, &mut data), Ok(()));
    assert_eq!(data, plain_text());
    // A block sealed under a built-in key is not opened with the group key.
    let (sealed, tag) = seal(&KEY_0, &nonce_of(0x59, 0xea), &plain_text());
    let mut data = sealed.clone();
    assert_eq!(state.decrypt_block_in_place(0xA, &tag, &mut data), Err(PkgError::RedactedUnavailable));
    assert_eq!(data, sealed);
}

#[test]
fn later_registration_replaces_the_key() {
    let mut keys = KeyTable::new();
    register_pkg_key(&mut keys, 5, [1u8; 16], [2u8; 12]);
    register_pkg_key(&mut keys, 5, [3u8; 16], [4u8; 12]);
    assert_eq!(keys.len(), 1);
    let key = keys.get(5).unwrap();
    assert_eq!(key.key, [3u8; 16]);
    assert_eq!(key.iv, [4u8; 12]);
    assert!(keys.get(6).is_none());
    let table = KeyTable::from_keys(&vec![(9, [1u8; 16], [1u8; 12]), (9, [2u8; 16], [2u8; 12]), (8, [5u8; 16], [6u8; 12])]);
    assert_eq!(table.len(), 2);
    assert_eq!(table.get(9).unwrap().key, [2u8; 16]);
    assert_eq!(table.get(8).unwrap().iv, [6u8; 12]);
}

#[test]
fn marathon_state_is_made_without_keys() {
    let version = GameVersion::Marathon(MarathonVersion::MarathonAlpha);
    let state = PkgGcmState::new(0x0102, version, 0, &KeyTable::new());
    let mut nonce = [0u8; 12];
    nonce[0] = 0x01;
    nonce[1] = 0xea;
    nonce[11] = 0x02;
    let (sealed, tag) = seal(&[0u8; 16], &nonce, &plain_text());
    let mut data = sealed;
    assert_eq!(state.decrypt_block_in_place(0x2, &tag, &mut data), Ok(()));
    assert_eq!(data, plain_text());
}

#[test]
fn empty_block_is_opened() {
    let version = GameVersion::Destiny(DestinyVersion::Destiny2Shadowkeep);
    let state = PkgGcmState::new(1, version, 0, &KeyTable::new());
    let (sealed, tag) = seal(&KEY_0, &nonce_of(1, 0xf9), &[]);
    let mut data = sealed;
    assert_eq!(state.decrypt_block_in_place(0x2, &tag, &mut data), Ok(()));
    assert!(data.is_empty());
}

#[test]
fn key_file_lines_are_read() {
    let text = "123456789ABCDEF:000102030405060708090A0B0C0D0E0F:101112131415161718191a1b // optional comment\n";
    let keys = parse_keys(text);
    assert_eq!(keys.len(), 1);
    assert_eq!(keys[0].0, 0x123456789ABCDEF);
    assert_eq!(keys[0].1, [0, 1, 2, 3, 4, 5, 6, 7, 8, 9, 10, 11, 12, 13, 14, 15]);
    assert_eq!(keys[0].2, [0x10, 0x11, 0x12, 0x13, 0x14, 0x15, 0x16, 0x17, 0x18, 0x19, 0x1a, 0x1b]);
}

#[test]
fn malformed_key_file_lines_are_skipped() {
    let good = "1:000102030405060708090A0B0C0D0E0F:101112131415161718191a1b";
    let lines = vec![
        "".to_string(),
        "no colons at all".to_string(),
        "1:000102030405060708090A0B0C0D0E0F".to_string(),
        "zz:000102030405060708090A0B0C0D0E0F:101112131415161718191a1b".to_string(),
        ":000102030405060708090A0B0C0D0E0F:101112131415161718191a1b".to_string(),
        "1:0001:101112131415161718191a1b".to_string(),
        "1:000102030405060708090A0B0C0D0E0:101112131415161718191a1b".to_string(),
        "1:000102030405060708090A0B0C0D0E0G:101112131415161718191a1b".to_string(),
        "1:000102030405060708090A0B0C0D0E0F:1011".to_string(),
        "1:000102030405060708090A0B0C0D0E0F:101112131415161718191a1".to_string(),
        "10000000000000000:000102030405060708090A0B0C0D0E0F:101112131415161718191a1b".to_string(),
        good.to_string(),
        format!("+2:{}:{}:more", "ffffffffffffffffffffffffffffffff", "000000000000000000000000"),
        format!("3:{}:{}extra", "ffffffffffffffffffffffffffffffff", "0a0000000000000000000000"),
    ];
    let keys = parse_keys(&lines.join("\n"));
    assert_eq!(keys.len(), 3);
    assert_eq!(keys[0].0, 1);
    assert_eq!(keys[1], (2, [0xff; 16], [0; 12]));
    assert_eq!(keys[2].0, 3);
    assert_eq!(keys[2].2[0], 0x0a);
}

#[test]
fn key_file_may_end_lines_with_carriage_returns() {
    let text = "1:000102030405060708090A0B0C0D0E0F:101112131415161718191a1b\r\n2:ffffffffffffffffffffffffffffffff:000000000000000000000000\r\n";
    let keys = parse_keys(text);
    assert_eq!(keys.len(), 2);
    assert_eq!(keys[1].0, 2);
    // A key part that ends in a carriage return is no key.
    let text = "1:000102030405060708090A0B0C0D0E0F\r:101112131415161718191a1b\n";
    assert_eq!(parse_keys(text).len(), 0);
    assert_eq!(parse_keys("").len(), 0);
    assert_eq!(parse_keys("\n\n\n").len(), 0);
}
