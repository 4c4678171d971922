use aes_gcm::{AeadInPlace, Aes128Gcm, KeyInit};
use destiny_pkg::bytes::Endian;
use destiny_pkg::crypto::{register_pkg_key, KeyTable};
use destiny_pkg::d1_internal_alpha::PackageD1InternalAlpha;
use destiny_pkg::d1_legacy::reader::LegacyHeader;
use destiny_pkg::d1_legacy::PackageD1Legacy;
use destiny_pkg::d1_roi::structs::{BlockHeader as BlockHeaderD1, NamedTagEntryD1};
use destiny_pkg::d1_roi::PackageD1RiseOfIron;
use destiny_pkg::d2_beta::PackageD2Beta;
use destiny_pkg::d2_beyondlight::PackageD2BeyondLight;
use destiny_pkg::d2_prebl::PackageD2PreBL;
use destiny_pkg::d2_shared::{path_base_of, sibling_path};
use destiny_pkg::d2_witchqueen::PackageD2WitchQueen;
use destiny_pkg::dispatch::AnyPackage;
use destiny_pkg::error::PkgError;
use destiny_pkg::oodle::OodleVersion;
use destiny_pkg::package::{Package, PackageLanguage, PackagePlatform, UEntryHeader};
use destiny_pkg::tag::TagHash;
use destiny_pkg::version::{DestinyVersion, Version};
use std::cell::Cell;

const BLOCK: usize = 0x40000;

fn put(image: &mut Vec<u8>, at: usize, bytes: &[u8]) {
    if image.len() < at + bytes.len() {
        image.resize(at + bytes.len(), 0);
    }
    image[at..at + bytes.len()].copy_from_slice(bytes);
}

fn put_u16(image: &mut Vec<u8>, at: usize, v: u16, e: Endian) {
    match e {
        Endian::Little => put(image, at, &v.to_le_bytes()),
        Endian::Big => put(image, at, &v.to_be_bytes()),
    }
}

fn put_u32(image: &mut Vec<u8>, at: usize, v: u32, e: Endian) {
    match e {
        Endian::Little => put(image, at, &v.to_le_bytes()),
        Endian::Big => put(image, at, &v.to_be_bytes()),
    }
}

fn put_u64(image: &mut Vec<u8>, at: usize, v: u64, e: Endian) {
    match e {
        Endian::Little => put(image, at, &v.to_le_bytes()),
        Endian::Big => put(image, at, &v.to_be_bytes()),
    }
}

struct Entry {
    reference: u32,
    file_type: u8,
    file_subtype: u8,
    starting_block: u32,
    offset: u32,
    size: u32,
}

struct Block {
    offset: u32,
    size: u32,
    patch_id: u16,
    flags: u16,
    gcm_tag: [u8; 16],
}

fn put_d2_entry(image: &mut Vec<u8>, at: usize, entry: &Entry) {
    let e = Endian::Little;
    put_u32(image, at, entry.reference, e);
    put_u32(image, at + 4, ((entry.file_type as u32) << 9) | ((entry.file_subtype as u32) << 6), e);
    let block_info: u64 =
        entry.starting_block as u64 | (((entry.offset >> 4) as u64) << 14) | ((entry.size as u64) << 28);
    put_u64(image, at + 8, block_info, e);
}

fn put_d2_block(image: &mut Vec<u8>, at: usize, block: &Block) {
    let e = Endian::Little;
    put_u32(image, at, block.offset, e);
    put_u32(image, at + 4, block.size, e);
    put_u16(image, at + 8, block.patch_id, e);
    put_u16(image, at + 10, block.flags, e);
    put(image, at + 12, &[0x5a; 20]);
    put(image, at + 32, &block.gcm_tag);
}

fn pattern(seed: u32, len: usize) -> Vec<u8> {
    (0..len as u32).map(|i| (i.wrapping_mul(31).wrapping_add(seed * 17) % 253) as u8).collect()
}

const ENTRY_TABLE: usize = 0x200;

/// An image of the beta layout: header, entry table at 0x200, block table
/// behind it, the payload after that.
fn beta_image(pkg_id: u16, patch_id: u16, platform: u16, entries: &[Entry], blocks: &[Block], payload: &[(u32, Vec<u8>)]) -> Vec<u8> {
    let e = Endian::Little;
    let mut image = vec![0u8; 0x168];
    put_u16(&mut image, 0, 38, e);
    put_u16(&mut image, 2, platform, e);
    put_u16(&mut image, 4, pkg_id, e);
    put_u64(&mut image, 8, 0x7777, e);
    put_u64(&mut image, 0x10, 1234567, e);
    put_u16(&mut image, 0x20, patch_id, e);
    put_u16(&mut image, 0x22, 1, e);
    put(&mut image, 0x24, b"builder 1.0");
    let block_table = ENTRY_TABLE + entries.len() * 16;
    put_u32(&mut image, 0xb4, entries.len() as u32, e);
    put_u32(&mut image, 0xb8, ENTRY_TABLE as u32, e);
    put(&mut image, 0xbc, &[0x11; 20]);
    put_u32(&mut image, 0xd0, blocks.len() as u32, e);
    put_u32(&mut image, 0xd4, block_table as u32, e);
    put_u32(&mut image, 0x164, 0, e);
    for (i, entry) in entries.iter().enumerate() {
        put_d2_entry(&mut image, ENTRY_TABLE + i * 16, entry);
    }
    for (i, block) in blocks.iter().enumerate() {
        put_d2_block(&mut image, block_table + i * 48, block);
    }
    if image.len() < block_table + blocks.len() * 48 {
        image.resize(block_table + blocks.len() * 48, 0);
    }
    for (at, bytes) in payload {
        put(&mut image, *at as usize, bytes);
    }
    image
}

fn plain_block(offset: u32, size: u32) -> Block {
    Block { offset, size, patch_id: 0, flags: 0, gcm_tag: [0; 16] }
}

fn entry_at(starting_block: u32, offset: u32, size: u32) -> Entry {
    Entry { reference: 0x80809ad8, file_type: 8, file_subtype: 0, starting_block, offset, size }
}

fn no_codec(_: OodleVersion, _: &Vec<u8>) -> Option<(i64, Vec<u8>)> {
    None
}

#[test]
fn entry_of_one_plain_block_is_read_as_stored() {
    let data = pattern(1, 0x900);
    let image = beta_image(0x59, 0, 7, &[entry_at(0, 0x40, 0x321)], &[plain_block(0x1000, 0x900)], &[(0x1000, data.clone())]);
    let mut pkg = PackageD2Beta::from_reader("ps4_test_0059_0.pkg", image.clone(), &KeyTable::new()).unwrap();
    assert_eq!(pkg.header.version, 38);
    assert_eq!(pkg.header.platform, PackagePlatform::PS4);
    assert_eq!(pkg.platform(), PackagePlatform::PS4);
    assert_eq!(pkg.pkg_id(), 0x59);
    assert_eq!(pkg.patch_id(), 0);
    assert_eq!(pkg.language(), PackageLanguage::English);
    assert_eq!(pkg.endianness(), Endian::Little);
    let entry = pkg.entry(0).unwrap();
    assert_eq!(entry.starting_block, 0);
    assert_eq!(entry.starting_block_offset, 0x40);
    assert_eq!(entry.file_size, 0x321);
    let read = pkg.read_entry(0, &no_codec).unwrap();
    assert_eq!(read.len(), 0x321);
    assert_eq!(read, image[0x1000 + 0x40..0x1000 + 0x40 + 0x321].to_vec());
    assert_eq!(read, data[0x40..0x40 + 0x321].to_vec());
}

#[test]
fn entry_spans_three_blocks() {
    let b0 = pattern(10, BLOCK);
    let b1 = pattern(11, BLOCK);
    let b2 = pattern(12, BLOCK);
    let image = beta_image(
        0x59,
        0,
        7,
        &[entry_at(0, 0x40, 0x80000)],
        &[plain_block(0x1000, BLOCK as u32), plain_block(0x41000, BLOCK as u32), plain_block(0x81000, BLOCK as u32)],
        &[(0x1000, b0.clone()), (0x41000, b1.clone()), (0x81000, b2.clone())],
    );
    let mut pkg = PackageD2Beta::from_reader("ps4_test_0059_0.pkg", image, &KeyTable::new()).unwrap();
    let read = pkg.read_entry(0, &no_codec).unwrap();
    assert_eq!(read.len(), 0x80000);
    // Block 0 gives what lies behind the offset, block 1 gives all of
    // itself, block 2 gives the rest.
    assert_eq!(read[..0x3ffc0], b0[0x40..]);
    assert_eq!(read[0x3ffc0..0x7ffc0], b1[..]);
    assert_eq!(read[0x7ffc0..], b2[..0x40]);
    // Exactly these three blocks were read.
    assert_eq!(pkg.common.block_cache.len(), 3);
    assert!(pkg.common.block_cache.lookup(0).is_some());
    assert!(pkg.common.block_cache.lookup(1).is_some());
    assert!(pkg.common.block_cache.lookup(2).is_some());
}

#[test]
fn entry_that_ends_with_its_block_takes_no_further_block() {
    let b0 = pattern(3, 0x100);
    let image = beta_image(
        1,
        0,
        2,
        &[entry_at(0, 0x10, 0xf0), entry_at(0, 0, 0x100), entry_at(1, 0, 0)],
        &[plain_block(0x1000, 0x100)],
        &[(0x1000, b0.clone())],
    );
    let mut pkg = PackageD2Beta::from_reader("w64_test_0001_0.pkg", image, &KeyTable::new()).unwrap();
    assert_eq!(pkg.read_entry(0, &no_codec).unwrap(), b0[0x10..].to_vec());
    assert_eq!(pkg.read_entry(1, &no_codec).unwrap(), b0);
    // An entry of no bytes is empty, whatever its block.
    assert_eq!(pkg.read_entry(2, &no_codec).unwrap(), Vec::<u8>::new());
    assert_eq!(pkg.common.block_cache.len(), 1);
}

#[test]
fn reading_out_of_range_fails() {
    let image = beta_image(
        1,
        0,
        2,
        &[entry_at(0, 0, 0x200), entry_at(5, 0, 1), entry_at(0, 0x110, 1)],
        &[plain_block(0x1000, 0x100)],
        &[(0x1000, vec![1; 0x100])],
    );
    let mut pkg = PackageD2Beta::from_reader("w64_test_0001_0.pkg", image, &KeyTable::new()).unwrap();
    // No entry 3.
    assert_eq!(pkg.read_entry(3, &no_codec), Err(PkgError::TableOutOfBounds));
    assert!(pkg.entry(3).is_none());
    // Entry 0 needs a second block, which does not exist.
    assert_eq!(pkg.read_entry(0, &no_codec), Err(PkgError::TableOutOfBounds));
    // Entry 1 starts in a block that does not exist.
    assert_eq!(pkg.read_entry(1, &no_codec), Err(PkgError::TableOutOfBounds));
    // Entry 2 starts behind the end of its block.
    assert_eq!(pkg.read_entry(2, &no_codec), Err(PkgError::TableOutOfBounds));
    assert!(matches!(pkg.get_block(1, &no_codec), Err(PkgError::TableOutOfBounds)));
    assert_eq!(pkg.common.get_block_raw(1), Err(PkgError::TableOutOfBounds));
}

#[test]
fn block_past_the_end_of_the_file_fails() {
    let mut image = beta_image(1, 0, 2, &[entry_at(0, 0, 0x10)], &[plain_block(0x1000, 0x100)], &[(0x1000, vec![1; 0x100])]);
    image.truncate(0x10ff);
    let mut pkg = PackageD2Beta::from_reader("w64_test_0001_0.pkg", image, &KeyTable::new()).unwrap();
    assert_eq!(pkg.read_entry(0, &no_codec), Err(PkgError::TableOutOfBounds));
}

#[test]
fn compressed_block_goes_through_the_codec() {
    let stored = pattern(5, 0x80);
    let calls = Cell::new(0u32);
    let codec = |version: OodleVersion, input: &Vec<u8>| -> Option<(i64, Vec<u8>)> {
        calls.set(calls.get() + 1);
        assert_eq!(version, OodleVersion::V3);
        let mut out = vec![0u8; BLOCK];
        for (i, b) in out.iter_mut().enumerate() {
            *b = input[i % input.len()].wrapping_add(1);
        }
        Some((BLOCK as i64, out))
    };
    let mut block = plain_block(0x1000, 0x80);
    block.flags = 0x1;
    let image = beta_image(1, 0, 2, &[entry_at(0, 0x20, 0x100)], &[block], &[(0x1000, stored.clone())]);
    let mut pkg = PackageD2Beta::from_reader("w64_test_0001_0.pkg", image, &KeyTable::new()).unwrap();
    let first = pkg.read_entry(0, &codec).unwrap();
    assert_eq!(first.len(), 0x100);
    for (i, b) in first.iter().enumerate() {
        assert_eq!(*b, stored[(i + 0x20) % 0x80].wrapping_add(1));
    }
    // The second reading gives the same bytes and decodes nothing again.
    let second = pkg.read_entry(0, &codec).unwrap();
    assert_eq!(first, second);
    assert_eq!(calls.get(), 1);
    assert_eq!(pkg.get_block(0, &codec).unwrap().len(), BLOCK);
    assert_eq!(calls.get(), 1);
}

#[test]
fn codec_failures_are_reported() {
    let mut block = plain_block(0x1000, 0x80);
    block.flags = 0x1;
    let image = beta_image(1, 0, 2, &[entry_at(0, 0, 0x10)], &[block], &[(0x1000, vec![3; 0x80])]);
    let mut pkg = PackageD2Beta::from_reader("w64_test_0001_0.pkg", image, &KeyTable::new()).unwrap();
    assert_eq!(pkg.read_entry(0, &no_codec), Err(PkgError::CodecUnavailable));
    let zero = |_: OodleVersion, _: &Vec<u8>| -> Option<(i64, Vec<u8>)> { Some((0, vec![0u8; BLOCK])) };
    assert_eq!(pkg.read_entry(0, &zero), Err(PkgError::CodecFailed));
    let negative = |_: OodleVersion, _: &Vec<u8>| -> Option<(i64, Vec<u8>)> { Some((-3, vec![0u8; BLOCK])) };
    assert_eq!(pkg.read_entry(0, &negative), Err(PkgError::CodecFailed));
    let short = |_: OodleVersion, _: &Vec<u8>| -> Option<(i64, Vec<u8>)> { Some((8, vec![0u8; 8])) };
    assert_eq!(pkg.read_entry(0, &short), Err(PkgError::CodecFailed));
    assert_eq!(pkg.common.block_cache.len(), 0);
    let good = |_: OodleVersion, _: &Vec<u8>| -> Option<(i64, Vec<u8>)> { Some((8, vec![9u8; BLOCK])) };
    assert_eq!(pkg.read_entry(0, &good), Ok(vec![9u8; 0x10]));
}

fn seal(key: &[u8; 16], nonce: &[u8; 12], plain: &[u8]) -> (Vec<u8>, [u8; 16]) {
    let cipher = Aes128Gcm::new(key.into());
    let mut data = plain.to_vec();
    let tag = cipher.encrypt_in_place_detached(nonce.into(), &[], &mut data).unwrap();
    let mut out = [0u8; 16];
    out.copy_from_slice(tag.as_slice());
    (data, out)
}

const KEY_0: [u8; 16] =
    [0xD6, 0x2A, 0xB2, 0xC1, 0x0C, 0xC0, 0x1B, 0xC5, 0x35, 0xDB, 0x7B, 0x86, 0x55, 0xC7, 0xDC, 0x3B];

#[test]
fn block_with_flags_3_is_opened_and_then_decoded() {
    let plain = pattern(9, 0x200);
    // Archive 0x59 of the beta: the nonce base with the id folded in.
    let nonce: [u8; 12] = [0x84, 0xf9, 0x11, 0xc0, 0xac, 0xab, 0xfa, 0x20, 0x33, 0x11, 0x26, 0x99 ^ 0x59];
    let (sealed, tag) = seal(&KEY_0, &nonce, &plain);
    let block = Block { offset: 0x1000, size: 0x200, patch_id: 0, flags: 0x3, gcm_tag: tag };
    let image = beta_image(0x59, 0, 7, &[entry_at(0, 0, 0x40000)], &[block], &[(0x1000, sealed.clone())]);
    let mut pkg = PackageD2Beta::from_reader("ps4_test_0059_0.pkg", image, &KeyTable::new()).unwrap();
    assert_eq!(pkg.common.get_block_raw(0).unwrap(), sealed);
    let seen = Cell::new(false);
    let codec = |_: OodleVersion, input: &Vec<u8>| -> Option<(i64, Vec<u8>)> {
        // The codec is handed the plain text.
        seen.set(*input == pattern(9, 0x200));
        Some((0x40000, vec![0x42u8; BLOCK]))
    };
    let decoded = pkg.common.read_block(0, &codec).unwrap();
    assert!(seen.get());
    assert_eq!(decoded.len(), 0x40000);
    assert_eq!(pkg.read_entry(0, &codec).unwrap(), vec![0x42u8; BLOCK]);
}

#[test]
fn encrypted_block_with_wrong_tag_fails() {
    let nonce: [u8; 12] = [0x84, 0xf9, 0x11, 0xc0, 0xac, 0xab, 0xfa, 0x20, 0x33, 0x11, 0x26, 0x99 ^ 0x59];
    let (sealed, mut tag) = seal(&KEY_0, &nonce, &pattern(9, 0x200));
    tag[3] ^= 0x80;
    let block = Block { offset: 0x1000, size: 0x200, patch_id: 0, flags: 0x2, gcm_tag: tag };
    let image = beta_image(0x59, 0, 7, &[entry_at(0, 0, 0x200)], &[block], &[(0x1000, sealed)]);
    let mut pkg = PackageD2Beta::from_reader("ps4_test_0059_0.pkg", image, &KeyTable::new()).unwrap();
    assert_eq!(pkg.read_entry(0, &no_codec), Err(PkgError::DecryptFailed));
}

#[test]
fn block_under_a_group_key_needs_the_key() {
    let plain = pattern(2, 0x100);
    let (sealed, tag) = seal(&[7u8; 16], &[8u8; 12], &plain);
    let block = Block { offset: 0x1000, size: 0x100, patch_id: 0, flags: 0xA, gcm_tag: tag };
    let image = beta_image(0x59, 0, 7, &[entry_at(0, 0, 0x100)], &[block], &[(0x1000, sealed)]);
    let mut pkg = PackageD2Beta::from_reader("ps4_test_0059_0.pkg", image.clone(), &KeyTable::new()).unwrap();
    assert_eq!(pkg.read_entry(0, &no_codec), Err(PkgError::RedactedUnavailable));
    // The image carries group 0x7777.
    let mut keys = KeyTable::new();
    register_pkg_key(&mut keys, 0x7777, [7u8; 16], [8u8; 12]);
    let mut pkg = PackageD2Beta::from_reader("ps4_test_0059_0.pkg", image, &keys).unwrap();
    assert_eq!(pkg.read_entry(0, &no_codec), Ok(plain));
}

#[test]
fn block_in_a_patch_file_is_read_from_that_file() {
    let own = pattern(1, 0x100);
    let patch = pattern(2, 0x3000);
    let mut sibling_block = plain_block(0x2000, 0x100);
    sibling_block.patch_id = 2;
    let mut own_block = plain_block(0x1000, 0x100);
    own_block.patch_id = 3;
    let image = beta_image(
        0x59,
        3,
        7,
        &[entry_at(0, 0, 0x180)],
        &[sibling_block, own_block],
        &[(0x1000, own.clone())],
    );
    let mut pkg = PackageD2Beta::from_reader("dir/ps4_test_0059_3.pkg", image, &KeyTable::new()).unwrap();
    assert_eq!(pkg.read_entry(0, &no_codec), Err(PkgError::SiblingMissing(2)));
    assert_eq!(pkg.common.get_block_raw(0), Err(PkgError::SiblingMissing(2)));
    assert_eq!(pkg.common.sibling_path(2), "dir/ps4_test_0059_2.pkg");
    pkg.common.add_patch_file(2, patch.clone());
    // The bytes are those at the block's place in the patch file.
    assert_eq!(pkg.common.get_block_raw(0).unwrap(), patch[0x2000..0x2100].to_vec());
    let read = pkg.read_entry(0, &no_codec).unwrap();
    assert_eq!(read[..0x100], patch[0x2000..0x2100]);
    assert_eq!(read[0x100..], own[..0x80]);
    // An image that comes later for the same patch is not used.
    pkg.common.add_patch_file(2, vec![0xff; 0x3000]);
    assert_eq!(pkg.common.get_block_raw(0).unwrap(), patch[0x2000..0x2100].to_vec());
}

#[test]
fn path_base_ends_before_the_last_underscore() {
    assert_eq!(path_base_of("a/w64_foo_0059_2.pkg"), "a/w64_foo_0059");
    assert_eq!(path_base_of("nounderscore.pkg"), "nounderscore.pkg");
    assert_eq!(path_base_of("_x"), "");
    assert_eq!(sibling_path("a/w64_foo_0059", 0), "a/w64_foo_0059_0.pkg");
    assert_eq!(sibling_path("a/w64_foo_0059", 65535), "a/w64_foo_0059_65535.pkg");
}

#[test]
fn cache_keeps_thirty_two_blocks_of_an_archive() {
    let count = 40usize;
    let mut blocks = Vec::new();
    let mut payload = Vec::new();
    let mut entries = Vec::new();
    for i in 0..count {
        blocks.push(plain_block(0x4000 + (i as u32) * 0x10, 0x10));
        payload.push((0x4000 + (i as u32) * 0x10, vec![i as u8; 0x10]));
        entries.push(entry_at(i as u32, 0, 0x10));
    }
    let image = beta_image(1, 0, 2, &entries, &blocks, &payload);
    let mut pkg = PackageD2Beta::from_reader("w64_test_0001_0.pkg", image, &KeyTable::new()).unwrap();
    assert_eq!(pkg.entries().len(), count);
    for i in 0..count {
        assert_eq!(pkg.read_entry(i, &no_codec).unwrap(), vec![i as u8; 0x10]);
        assert_eq!(pkg.common.block_cache.len(), (i + 1).min(32));
    }
    assert!(pkg.common.block_cache.lookup(7).is_none());
    assert!(pkg.common.block_cache.lookup(8).is_some());
    // A block that has left the cache is read again with the same bytes.
    assert_eq!(pkg.read_entry(0, &no_codec).unwrap(), vec![0u8; 0x10]);
}

#[test]
fn invalid_headers_are_refused() {
    let good = beta_image(1, 0, 2, &[entry_at(0, 0, 0x10)], &[plain_block(0x1000, 0x10)], &[(0x1000, vec![1; 0x10])]);
    let keys = KeyTable::new();
    assert!(PackageD2Beta::from_reader("w64_a_0001_0.pkg", good.clone(), &keys).is_ok());
    // Truncated.
    let r = PackageD2Beta::from_reader("w64_a_0001_0.pkg", good[..0x167].to_vec(), &keys);
    assert!(matches!(r, Err(PkgError::HeaderInvalid)));
    let r = PackageD2Beta::from_reader("w64_a_0001_0.pkg", Vec::new(), &keys);
    assert!(matches!(r, Err(PkgError::HeaderInvalid)));
    // Another version.
    let mut image = good.clone();
    put_u16(&mut image, 0, 39, Endian::Little);
    assert!(matches!(PackageD2Beta::from_reader("w64_a_0001_0.pkg", image, &keys), Err(PkgError::HeaderInvalid)));
    // No such platform.
    let mut image = good.clone();
    put_u16(&mut image, 2, 12, Endian::Little);
    assert!(matches!(PackageD2Beta::from_reader("w64_a_0001_0.pkg", image, &keys), Err(PkgError::HeaderInvalid)));
    // No such language.
    let mut image = good.clone();
    put_u16(&mut image, 0x22, 14, Endian::Little);
    assert!(matches!(PackageD2Beta::from_reader("w64_a_0001_0.pkg", image, &keys), Err(PkgError::HeaderInvalid)));
}

#[test]
fn tables_outside_the_image_are_refused() {
    let good = beta_image(1, 0, 2, &[entry_at(0, 0, 0x10)], &[plain_block(0x1000, 0x10)], &[(0x1000, vec![1; 0x10])]);
    let keys = KeyTable::new();
    // One entry too many.
    let mut image = good.clone();
    put_u32(&mut image, 0xb4, ((good.len() - ENTRY_TABLE) / 16 + 1) as u32, Endian::Little);
    assert!(matches!(PackageD2Beta::from_reader("w64_a_0001_0.pkg", image, &keys), Err(PkgError::TableOutOfBounds)));
    // Entry table behind the end.
    let mut image = good.clone();
    put_u32(&mut image, 0xb8, good.len() as u32 + 1, Endian::Little);
    assert!(matches!(PackageD2Beta::from_reader("w64_a_0001_0.pkg", image, &keys), Err(PkgError::TableOutOfBounds)));
    // Block table behind the end.
    let mut image = good.clone();
    put_u32(&mut image, 0xd4, 0xffff_fff0, Endian::Little);
    assert!(matches!(PackageD2Beta::from_reader("w64_a_0001_0.pkg", image, &keys), Err(PkgError::TableOutOfBounds)));
    // Reference to the named tags behind the end.
    let mut image = good.clone();
    put_u32(&mut image, 0xf0, good.len() as u32, Endian::Little);
    assert!(matches!(PackageD2Beta::from_reader("w64_a_0001_0.pkg", image, &keys), Err(PkgError::TableOutOfBounds)));
    // A table that ends with the image is read.
    let mut image = good.clone();
    image.truncate(ENTRY_TABLE + 16 + 48);
    let pkg = PackageD2Beta::from_reader("w64_a_0001_0.pkg", image, &keys).unwrap();
    assert_eq!(pkg.common.blocks.len(), 1);
}

#[test]
fn entry_words_are_taken_apart() {
    let mut image = beta_image(1, 0, 2, &[entry_at(0, 0, 0)], &[], &[]);
    let e = Endian::Little;
    put_u32(&mut image, ENTRY_TABLE, 0xdeadbeef, e);
    // Type 0x55 in bits 9 to 15, subtype 5 in bits 6 to 8, noise around.
    put_u32(&mut image, ENTRY_TABLE + 4, 0xffff_0000 | (0x55 << 9) | (5 << 6) | 0x3f, e);
    // Block 0x1234, offset 0x2abc units, size 0x8765_4321, noise above.
    let block_info: u64 = 0x1234 | (0x2abc << 14) | (0x8765_4321u64 << 28) | (0xf << 60);
    put_u64(&mut image, ENTRY_TABLE + 8, block_info, e);
    let pkg = PackageD2Beta::from_reader("w64_a_0001_0.pkg", image, &KeyTable::new()).unwrap();
    let entry: UEntryHeader = pkg.entry(0).unwrap();
    assert_eq!(entry.reference, 0xdeadbeef);
    assert_eq!(entry.file_type, 0x55);
    assert_eq!(entry.file_subtype, 5);
    assert_eq!(entry.starting_block, 0x1234);
    assert_eq!(entry.starting_block_offset, 0x2abc << 4);
    assert_eq!(entry.file_size, 0x8765_4321);
    assert_eq!(pkg.common.entries[0].type_info, 0xffff_0000 | (0x55 << 9) | (5 << 6) | 0x3f);
    assert_eq!(pkg.common.entries[0].block_info, block_info);
}

#[test]
fn header_fields_are_read_where_they_stand() {
    let image = beta_image(0x59, 4, 7, &[entry_at(0, 0, 0)], &[plain_block(1, 2)], &[]);
    let pkg = PackageD2Beta::from_reader("ps4_a_0059_4.pkg", image, &KeyTable::new()).unwrap();
    let h = &pkg.header;
    assert_eq!(h.pkg_id, 0x59);
    assert_eq!(h.group_id, 0x7777);
    assert_eq!(h.build_time, 1234567);
    assert_eq!(h.patch_id, 4);
    assert_eq!(h.language, PackageLanguage::English);
    assert_eq!(h.tool_string, "builder 1.0");
    assert_eq!(h.entry_table_size, 1);
    assert_eq!(h.entry_table_offset, 0x200);
    assert_eq!(h.entry_table_hash, [0x11; 20]);
    assert_eq!(h.block_table_size, 1);
    assert_eq!(h.block_table_offset, 0x210);
    assert_eq!(pkg.common.blocks[0].offset, 1);
    assert_eq!(pkg.common.blocks[0].size, 2);
    assert_eq!(pkg.common.blocks[0].hash, [0x5a; 20]);
    assert_eq!(pkg.common.path_base, "ps4_a_0059");
    assert!(pkg.hash64_table().is_empty());
    assert!(pkg.named_tags().is_empty());
}

#[test]
fn entries_are_found_by_reference_and_type() {
    let entries = vec![
        Entry { reference: 1, file_type: 26, file_subtype: 5, starting_block: 0, offset: 0, size: 0 },
        Entry { reference: 2, file_type: 26, file_subtype: 6, starting_block: 0, offset: 0, size: 0 },
        Entry { reference: 1, file_type: 32, file_subtype: 5, starting_block: 0, offset: 0, size: 0 },
        Entry { reference: 3, file_type: 26, file_subtype: 5, starting_block: 0, offset: 0, size: 0 },
    ];
    let image = beta_image(1, 0, 2, &entries, &[], &[]);
    let pkg = PackageD2Beta::from_reader("w64_a_0001_0.pkg", image, &KeyTable::new()).unwrap();
    let by_reference: Vec<usize> = pkg.get_all_by_reference(1).iter().map(|(i, _)| *i).collect();
    assert_eq!(by_reference, vec![0, 2]);
    assert!(pkg.get_all_by_reference(9).is_empty());
    let by_type: Vec<usize> = pkg.get_all_by_type(26, None).iter().map(|(i, _)| *i).collect();
    assert_eq!(by_type, vec![0, 1, 3]);
    let by_subtype: Vec<usize> = pkg.get_all_by_type(26, Some(5)).iter().map(|(i, _)| *i).collect();
    assert_eq!(by_subtype, vec![0, 3]);
    assert_eq!(pkg.get_all_by_type(26, Some(5))[1].1.reference, 3);
    assert!(pkg.get_all_by_type(27, None).is_empty());
}

#[test]
fn tag_is_read_from_its_archive_only() {
    let data = pattern(3, 0x20);
    let image =
        beta_image(0x59, 0, 7, &[entry_at(0, 0, 4), entry_at(0, 16, 4)], &[plain_block(0x1000, 0x20)], &[(0x1000, data.clone())]);
    let mut pkg = PackageD2Beta::from_reader("ps4_a_0059_0.pkg", image, &KeyTable::new()).unwrap();
    assert_eq!(pkg.read_tag(TagHash::new(0x59, 1), &no_codec), Ok(data[16..20].to_vec()));
    assert_eq!(pkg.read_tag(TagHash::new(0x5a, 1), &no_codec), Err(PkgError::NotFound));
    assert_eq!(pkg.read_tag(TagHash::new(0x59, 2), &no_codec), Err(PkgError::TableOutOfBounds));
}

/// Writes a table reference at `at` that leads to `table`: the count, then
/// the distance from the distance's own place to sixteen bytes before the
/// table.
fn put_table_ref(image: &mut Vec<u8>, at: usize, count: u64, table: usize) {
    put_u64(image, at, count, Endian::Little);
    put_u64(image, at + 8, (table as u64).wrapping_sub(at as u64 + 8 + 16), Endian::Little);
}

fn put_named_tag(image: &mut Vec<u8>, at: usize, hash: u32, class: u32, name_at: usize, name: &[u8]) {
    put_u32(image, at, hash, Endian::Little);
    put_u32(image, at + 4, class, Endian::Little);
    put_u64(image, at + 8, (name_at - (at + 8)) as u64, Endian::Little);
    put(image, name_at, name);
    put(image, name_at + name.len(), &[0]);
}

fn prebl_image() -> Vec<u8> {
    let e = Endian::Little;
    let mut image = vec![0u8; 0x168];
    put_u16(&mut image, 0, 38, e);
    put_u16(&mut image, 2, 2, e);
    put_u16(&mut image, 4, 0x123, e);
    put_u64(&mut image, 8, 0x4242, e);
    put_u16(&mut image, 0x20, 1, e);
    put_u16(&mut image, 0x22, 0, e);
    put_u32(&mut image, 0xb4, 2, e);
    put_u32(&mut image, 0xd0, 1, e);
    put_u32(&mut image, 0xf0, 0x400, e);
    // The entry table stands at 0x200; the header stores that less 96.
    put_u32(&mut image, 0x110, 0x200 - 96, e);
    // Sixteen bytes before the table: its length in units of 16 bytes.
    put_u32(&mut image, 0x200 - 16, 2, e);
    put_d2_entry(&mut image, 0x200, &entry_at(0, 0, 8));
    put_d2_entry(&mut image, 0x210, &entry_at(0, 16, 4));
    // The block table follows the entries after a gap of 32 bytes.
    let mut block = plain_block(0x1000, 0x20);
    block.patch_id = 1;
    put_d2_block(&mut image, 0x200 + 32 + 32, &block);
    // Named tags behind the reference at 0x410, aliases behind that at 0x430.
    put_table_ref(&mut image, 0x410, 2, 0x500);
    put_named_tag(&mut image, 0x500, 0x80a00001, 0x11, 0x600, b"first");
    put_named_tag(&mut image, 0x510, 0x80a00002, 0x22, 0x610, "zw\u{f6}lf".as_bytes());
    put_table_ref(&mut image, 0x430, 2, 0x700);
    put_u64(&mut image, 0x700, 0x1111_2222_3333_4444, e);
    put_u32(&mut image, 0x708, 0x80a00001, e);
    put_u32(&mut image, 0x70c, 0x80809ad8, e);
    put_u64(&mut image, 0x710, 0x5555, e);
    put_u32(&mut image, 0x718, 0xffffffff, e);
    put_u32(&mut image, 0x71c, 7, e);
    put(&mut image, 0x1000, &pattern(4, 0x20));
    image
}

#[test]
fn prebl_archive_is_opened() {
    let mut pkg = PackageD2PreBL::from_reader("w64_x_0123_1.pkg", prebl_image(), &KeyTable::new()).unwrap();
    assert_eq!(pkg.header.entry_table_offset, 0x200);
    assert_eq!(pkg.header.misc_data_offset, 0x400);
    assert_eq!(pkg.pkg_id(), 0x123);
    assert_eq!(pkg.patch_id(), 1);
    assert_eq!(pkg.platform(), PackagePlatform::Win64);
    assert_eq!(pkg.language(), PackageLanguage::Neutral);
    assert_eq!(pkg.common.version, DestinyVersion::Destiny2Shadowkeep);
    assert_eq!(pkg.entries().len(), 2);
    assert_eq!(pkg.common.blocks.len(), 1);
    assert_eq!(pkg.common.blocks[0].offset, 0x1000);
    let tags = pkg.named_tags();
    assert_eq!(tags.len(), 2);
    assert_eq!(tags[0].hash, TagHash(0x80a00001));
    assert_eq!(tags[0].class_hash, 0x11);
    assert_eq!(tags[0].name, "first");
    assert_eq!(tags[1].name, "zw\u{f6}lf");
    let hashes = pkg.hash64_table();
    assert_eq!(hashes.len(), 2);
    assert_eq!(hashes[0].hash64, 0x1111_2222_3333_4444);
    assert_eq!(hashes[0].hash32, TagHash(0x80a00001));
    assert_eq!(hashes[0].reference, TagHash(0x80809ad8));
    assert_eq!(hashes[1].hash32, TagHash::none());
    assert_eq!(pkg.read_entry(1, &no_codec).unwrap(), pattern(4, 0x20)[16..20].to_vec());
}

#[test]
fn names_with_invalid_bytes_get_replacement_characters() {
    let mut image = prebl_image();
    put(&mut image, 0x600, &[b'a', 0xff, b'b', 0]);
    let pkg = PackageD2PreBL::from_reader("w64_x_0123_1.pkg", image, &KeyTable::new()).unwrap();
    assert_eq!(pkg.named_tags()[0].name, "a\u{fffd}b");
}

#[test]
fn prebl_archive_without_misc_data_has_no_names() {
    let mut image = prebl_image();
    put_u32(&mut image, 0xf0, 0, Endian::Little);
    let pkg = PackageD2PreBL::from_reader("w64_x_0123_1.pkg", image, &KeyTable::new()).unwrap();
    assert!(pkg.named_tags().is_empty());
    assert!(pkg.hash64_table().is_empty());
}

#[test]
fn prebl_tables_outside_the_image_are_refused() {
    let keys = KeyTable::new();
    // The name of a tag without its terminator.
    let mut image = prebl_image();
    let last = image.len() - 1;
    put_u64(&mut image, 0x518, (last - 0x518) as u64, Endian::Little);
    image[last] = b'x';
    assert!(matches!(PackageD2PreBL::from_reader("w64_x_0123_1.pkg", image, &keys), Err(PkgError::TableOutOfBounds)));
    // A reference that leads before the start of the image.
    let mut image = prebl_image();
    put_u64(&mut image, 0x418, (0u64).wrapping_sub(0x1000), Endian::Little);
    assert!(matches!(PackageD2PreBL::from_reader("w64_x_0123_1.pkg", image, &keys), Err(PkgError::TableOutOfBounds)));
    // More aliases than the image holds.
    let mut image = prebl_image();
    put_u64(&mut image, 0x430, 0x1_0000_0000, Endian::Little);
    assert!(matches!(PackageD2PreBL::from_reader("w64_x_0123_1.pkg", image, &keys), Err(PkgError::TableOutOfBounds)));
    // A stored entry table offset that does not fit.
    let mut image = prebl_image();
    put_u32(&mut image, 0x110, 0xffff_ffff, Endian::Little);
    assert!(matches!(PackageD2PreBL::from_reader("w64_x_0123_1.pkg", image, &keys), Err(PkgError::HeaderInvalid)));
    // A block table pushed behind the end by the length of the entry table.
    let mut image = prebl_image();
    put_u32(&mut image, 0x200 - 16, 0x0fff_ffff, Endian::Little);
    assert!(matches!(PackageD2PreBL::from_reader("w64_x_0123_1.pkg", image, &keys), Err(PkgError::TableOutOfBounds)));
}

#[test]
fn backward_table_reference_is_followed() {
    // The aliases stand before their reference.
    let mut image = prebl_image();
    put_table_ref(&mut image, 0x430, 1, 0x300);
    put_u64(&mut image, 0x300, 0x99, Endian::Little);
    put_u32(&mut image, 0x308, 0x80a00009, Endian::Little);
    let pkg = PackageD2PreBL::from_reader("w64_x_0123_1.pkg", image, &KeyTable::new()).unwrap();
    let hashes = pkg.hash64_table();
    assert_eq!(hashes.len(), 1);
    assert_eq!(hashes[0].hash64, 0x99);
    assert_eq!(hashes[0].hash32, TagHash(0x80a00009));
}

fn beyondlight_image() -> Vec<u8> {
    let e = Endian::Little;
    let mut image = vec![0u8; 0x124];
    put_u16(&mut image, 0, 53, e);
    put_u16(&mut image, 2, 2, e);
    put_u64(&mut image, 8, 0xabcdef, e);
    put_u16(&mut image, 0x10, 0x3ac, e);
    put_u64(&mut image, 0x20, 99, e);
    put_u16(&mut image, 0x30, 6, e);
    put_u16(&mut image, 0x32, 1, e);
    put_u32(&mut image, 0x60, 1, e);
    put_u32(&mut image, 0x64, 0x200, e);
    put_u32(&mut image, 0x68, 1, e);
    put_u32(&mut image, 0x6c, 0x300, e);
    put_u32(&mut image, 0x78, 1, e);
    put_u32(&mut image, 0x7c, 0x400, e);
    put_u32(&mut image, 0xb8, 1, e);
    put_u32(&mut image, 0xbc, 0x500, e);
    put_d2_entry(&mut image, 0x200, &entry_at(0, 0, 8));
    let mut block = plain_block(0x1000, 0x10);
    block.patch_id = 6;
    block.flags = 1;
    put_d2_block(&mut image, 0x300, &block);
    put_named_tag(&mut image, 0x430, 0x80a00abc, 0x808099ef, 0x4a0, b"activity");
    put_u64(&mut image, 0x550, 0xfeed, e);
    put_u32(&mut image, 0x558, 0x81d58000, e);
    put_u32(&mut image, 0x55c, 0x80808000, e);
    put(&mut image, 0x1000, &pattern(8, 0x10));
    image
}

#[test]
fn beyondlight_archive_is_opened() {
    let keys = KeyTable::new();
    let mut pkg =
        PackageD2BeyondLight::from_reader("w64_y_03ac_6.pkg", beyondlight_image(), DestinyVersion::Destiny2Lightfall, &keys)
            .unwrap();
    assert_eq!(pkg.header.version, 53);
    assert_eq!(pkg.header.group_id, 0xabcdef);
    assert_eq!(pkg.header.build_time, 99);
    assert_eq!(pkg.header.named_tag_table_offset, 0x400);
    assert_eq!(pkg.header.h64_table_offset, 0x500);
    assert_eq!(pkg.pkg_id(), 0x3ac);
    assert_eq!(pkg.patch_id(), 6);
    assert_eq!(pkg.language(), PackageLanguage::English);
    assert_eq!(pkg.platform(), PackagePlatform::Win64);
    assert_eq!(pkg.common.version, DestinyVersion::Destiny2Lightfall);
    let tags = pkg.named_tags();
    assert_eq!(tags.len(), 1);
    assert_eq!(tags[0].name, "activity");
    assert_eq!(tags[0].hash, TagHash(0x80a00abc));
    assert_eq!(tags[0].class_hash, 0x808099ef);
    let hashes = pkg.hash64_table();
    assert_eq!(hashes.len(), 1);
    assert_eq!(hashes[0].hash64, 0xfeed);
    assert_eq!(hashes[0].hash32, TagHash(0x81d58000));
    // From Beyond Light on the newer codec is asked.
    let codec = |version: OodleVersion, _: &Vec<u8>| -> Option<(i64, Vec<u8>)> {
        assert_eq!(version, OodleVersion::V9);
        Some((1, vec![0x33u8; BLOCK]))
    };
    assert_eq!(pkg.read_entry(0, &codec).unwrap(), vec![0x33u8; 8]);
}

#[test]
fn beyondlight_alias_table_is_optional() {
    let mut image = beyondlight_image();
    put_u32(&mut image, 0xb8, 0, Endian::Little);
    put_u32(&mut image, 0xbc, 0xffff_ffff, Endian::Little);
    let pkg = PackageD2BeyondLight::from_reader("w64_y_03ac_6.pkg", image, DestinyVersion::Destiny2BeyondLight, &KeyTable::new())
        .unwrap();
    assert!(pkg.hash64_table().is_empty());
    let mut image = beyondlight_image();
    put_u32(&mut image, 0xbc, 0xffff_ffff, Endian::Little);
    let r = PackageD2BeyondLight::from_reader("w64_y_03ac_6.pkg", image, DestinyVersion::Destiny2BeyondLight, &KeyTable::new());
    assert!(matches!(r, Err(PkgError::TableOutOfBounds)));
    let mut image = beyondlight_image();
    put_u16(&mut image, 0, 38, Endian::Little);
    let r = PackageD2BeyondLight::from_reader("w64_y_03ac_6.pkg", image, DestinyVersion::Destiny2BeyondLight, &KeyTable::new());
    assert!(matches!(r, Err(PkgError::HeaderInvalid)));
}

#[test]
fn witchqueen_archive_is_opened() {
    let mut image = beyondlight_image();
    let mut pkg = PackageD2WitchQueen::from_reader("w64_y_03ac_6.pkg", image.clone(), &KeyTable::new()).unwrap();
    assert_eq!(pkg.header.version, (53, 2));
    assert_eq!(pkg.header.pkg_id, 0x3ac);
    assert_eq!(pkg.header.entry_table_offset, 0x200);
    assert_eq!(pkg.pkg_id(), 0x3ac);
    assert_eq!(pkg.patch_id(), 6);
    assert_eq!(pkg.platform(), PackagePlatform::Win64);
    assert!(pkg.hash64_table().is_empty());
    assert!(pkg.named_tags().is_empty());
    assert_eq!(pkg.get_block_raw(0).unwrap(), pattern(8, 0x10));
    let codec = |version: OodleVersion, _: &Vec<u8>| -> Option<(i64, Vec<u8>)> {
        assert_eq!(version, OodleVersion::V9);
        Some((1, vec![0x44u8; BLOCK]))
    };
    assert_eq!(pkg.read_block(0, &codec).unwrap().len(), BLOCK);
    assert_eq!(pkg.read_entry(0, &codec).unwrap(), vec![0x44u8; 8]);
    // Any other platform is refused.
    put_u16(&mut image, 2, 7, Endian::Little);
    assert!(matches!(PackageD2WitchQueen::from_reader("w64_y_03ac_6.pkg", image, &KeyTable::new()), Err(PkgError::HeaderInvalid)));
}

fn put_d1_entry(image: &mut Vec<u8>, at: usize, reference: u32, thing: u32, block_info: u64, e: Endian) {
    put_u32(image, at, reference, e);
    put_u32(image, at + 4, thing, e);
    put_u64(image, at + 8, block_info, e);
}

fn roi_image() -> Vec<u8> {
    let e = Endian::Little;
    let mut image = vec![0u8; 0x140];
    put_u16(&mut image, 0, 24, e);
    put_u16(&mut image, 2, 7, e);
    put_u16(&mut image, 4, 0x77, e);
    put_u16(&mut image, 0x1c, 3, e);
    put_u16(&mut image, 0x1e, 4, e);
    put_u16(&mut image, 0x20, 2, e);
    put_u16(&mut image, 0x22, 0, e);
    put(&mut image, 0x24, b"roi tool\0\0");
    put_u32(&mut image, 0xb4, 1, e);
    put_u32(&mut image, 0xb8, 0x200, e);
    put_u32(&mut image, 0xd0, 2, e);
    put_u32(&mut image, 0xd4, 0x300, e);
    put_u32(&mut image, 0xec, 1, e);
    put_u32(&mut image, 0xf0, 0x400, e);
    // Subtype 0x12 in the highest byte, type 0x34 in the lowest.
    put_d1_entry(&mut image, 0x200, 0xcafe, 0x12ab_cd34, 0 | (1 << 14) | (0x18u64 << 28) | (0x3u64 << 58), e);
    // Block 0: plain, in this file. Block 1: compressed.
    put_u32(&mut image, 0x300, 0x1000, e);
    put_u32(&mut image, 0x304, 0x20, e);
    put_u16(&mut image, 0x308, 2, e);
    put_u16(&mut image, 0x30a, 0, e);
    put_u32(&mut image, 0x320, 0x1020, e);
    put_u32(&mut image, 0x324, 0x8, e);
    put_u16(&mut image, 0x328, 2, e);
    put_u16(&mut image, 0x32a, 1, e);
    put_u32(&mut image, 0x400, 0x80a00123, e);
    put_u32(&mut image, 0x404, 0x55, e);
    put(&mut image, 0x408, b"named");
    put(&mut image, 0x1000, &pattern(6, 0x28));
    image
}

#[test]
fn rise_of_iron_archive_is_opened() {
    let mut pkg = PackageD1RiseOfIron::from_reader("ps4_z_0077_2.pkg", roi_image()).unwrap();
    assert_eq!(pkg.header.version, 24);
    assert_eq!(pkg.header.version_major, 3);
    assert_eq!(pkg.header.version_minor, 4);
    assert_eq!(pkg.header.tool_string, "roi tool");
    assert_eq!(pkg.pkg_id(), 0x77);
    assert_eq!(pkg.patch_id(), 2);
    assert_eq!(pkg.platform(), PackagePlatform::PS4);
    assert_eq!(pkg.endianness(), Endian::Little);
    let entry = pkg.entry(0).unwrap();
    assert_eq!(entry.reference, 0xcafe);
    assert_eq!(entry.file_type, 0x34);
    assert_eq!(entry.file_subtype, 0x12);
    assert_eq!(entry.starting_block, 0);
    assert_eq!(entry.starting_block_offset, 16);
    // The size has thirty bits.
    assert_eq!(entry.file_size, 0x18);
    let tags = pkg.named_tags();
    assert_eq!(tags.len(), 1);
    assert_eq!(tags[0].hash, TagHash(0x80a00123));
    assert_eq!(tags[0].class_hash, 0x55);
    // The name keeps the padding of its field.
    assert_eq!(tags[0].name.len(), 60);
    assert_eq!(tags[0].name.trim_end_matches('\0'), "named");
    assert!(pkg.hash64_table().is_empty());
    let codec = |version: OodleVersion, input: &Vec<u8>| -> Option<(i64, Vec<u8>)> {
        assert_eq!(version, OodleVersion::V3);
        assert_eq!(input.len(), 8);
        Some((BLOCK as i64, vec![0x66u8; BLOCK]))
    };
    let read = pkg.read_entry(0, &codec).unwrap();
    assert_eq!(read.len(), 0x18);
    assert_eq!(read[..0x10], pattern(6, 0x28)[0x10..0x20]);
    assert_eq!(read[0x10..], [0x66u8; 8]);
    assert_eq!(pkg.get_block_raw(1).unwrap(), pattern(6, 0x28)[0x20..].to_vec());
    assert_eq!(pkg.read_block(0, &codec).unwrap(), pattern(6, 0x28)[..0x20].to_vec());
}

fn alpha_image() -> Vec<u8> {
    let e = Endian::Big;
    let mut image = vec![0u8; 0x138];
    put_u16(&mut image, 0, 11, e);
    put_u16(&mut image, 2, 3, e);
    put_u16(&mut image, 4, 0x21, e);
    put_u16(&mut image, 6, 9, e);
    put_u16(&mut image, 0x1e, 1, e);
    put(&mut image, 0x20, b"alpha tool");
    put_u32(&mut image, 0xa4, 1, e);
    put_u32(&mut image, 0xa8, 0x280, e);
    put_u32(&mut image, 0xac, 1, e);
    put_u32(&mut image, 0xb0, 0x400, e);
    put_u32(&mut image, 0x100, 1, e);
    put_u32(&mut image, 0x104, 0x200, e);
    put_u32(&mut image, 0x11c, 1, e);
    put_u32(&mut image, 0x120, 0x300, e);
    // Type 0x9c in bits 18 to 25, subtype 0x07 in the lowest byte.
    put_d1_entry(&mut image, 0x200, 0xbeef, (0x9c << 18) | 0x07, 0 | (0x10u64 << 28), e);
    put_u32(&mut image, 0x280, 1, e);
    put_u32(&mut image, 0x284, 2, e);
    put_u32(&mut image, 0x288, 3, e);
    put_u32(&mut image, 0x28c, 4, e);
    // Flags come before the patch id, which is not used.
    put_u32(&mut image, 0x300, 0x1000, e);
    put_u32(&mut image, 0x304, 0x10, e);
    put_u16(&mut image, 0x308, 0, e);
    put_u16(&mut image, 0x30a, 5, e);
    put_u32(&mut image, 0x400, 0x80a00777, e);
    put_u32(&mut image, 0x404, 0x66, e);
    put(&mut image, 0x408, b"alpha");
    put(&mut image, 0x1000, &pattern(7, 0x10));
    image
}

#[test]
fn internal_alpha_archive_is_opened() {
    let mut pkg = PackageD1InternalAlpha::from_reader("360_q_0021_0.pkg", alpha_image()).unwrap();
    assert_eq!(pkg.header.version, 11);
    assert_eq!(pkg.header.patch, 9);
    assert_eq!(pkg.header.tool_string, "alpha tool");
    assert_eq!(pkg.pkg_id(), 0x21);
    // These archives count as patch zero, and their blocks lie in their own
    // file whatever patch id they carry.
    assert_eq!(pkg.patch_id(), 0);
    assert_eq!(pkg.platform(), PackagePlatform::X360);
    assert_eq!(pkg.language(), PackageLanguage::English);
    assert_eq!(pkg.endianness(), Endian::Big);
    let entry = pkg.entry(0).unwrap();
    assert_eq!(entry.reference, 0xbeef);
    assert_eq!(entry.file_type, 0x9c);
    assert_eq!(entry.file_subtype, 0x07);
    assert_eq!(entry.file_size, 0x10);
    assert_eq!(pkg.entries2.len(), 1);
    assert_eq!(pkg.entries2[0].unk0, 1);
    assert_eq!(pkg.entries2[0].unkc, 4);
    assert_eq!(pkg.blocks[0].patch_id, 5);
    assert_eq!(pkg.named_tags()[0].name.trim_end_matches('\0'), "alpha");
    assert_eq!(pkg.get_block_raw(0).unwrap(), pattern(7, 0x10));
    assert_eq!(pkg.read_block(0, &no_codec).unwrap(), pattern(7, 0x10));
    assert_eq!(pkg.read_entry(0, &no_codec).unwrap(), pattern(7, 0x10));
}

#[test]
fn byte_orders_are_told_apart() {
    let keys = KeyTable::new();
    // A big-endian header is refused by every little-endian reader.
    let big = alpha_image();
    assert!(matches!(PackageD1RiseOfIron::from_reader("a_b_0001_0.pkg", big.clone()), Err(PkgError::HeaderInvalid)));
    assert!(matches!(PackageD2Beta::from_reader("a_b_0001_0.pkg", big.clone(), &keys), Err(PkgError::HeaderInvalid)));
    assert!(matches!(PackageD2PreBL::from_reader("a_b_0001_0.pkg", big.clone(), &keys), Err(PkgError::HeaderInvalid)));
    assert!(matches!(
        PackageD2BeyondLight::from_reader("a_b_0001_0.pkg", big.clone(), DestinyVersion::Destiny2BeyondLight, &keys),
        Err(PkgError::HeaderInvalid)
    ));
    // Little-endian headers are refused by the big-endian reader.
    for little in [roi_image(), prebl_image(), beyondlight_image()] {
        assert!(matches!(PackageD1InternalAlpha::from_reader("a_b_0001_0.pkg", little), Err(PkgError::HeaderInvalid)));
    }
    // The version of the alpha in the other byte order is refused too.
    let mut swapped = alpha_image();
    put_u16(&mut swapped, 0, 11, Endian::Little);
    assert!(matches!(PackageD1InternalAlpha::from_reader("a_b_0001_0.pkg", swapped), Err(PkgError::HeaderInvalid)));
}

#[test]
fn legacy_blocks_have_their_own_compression_flag() {
    let mut image = vec![0u8; 0x40];
    put(&mut image, 0x10, &pattern(1, 0x10));
    let blocks = vec![
        BlockHeaderD1 { offset: 0x10, size: 0x10, patch_id: 0, flags: 0x1, hash: [0; 20] },
        BlockHeaderD1 { offset: 0x10, size: 0x10, patch_id: 0, flags: 0x100, hash: [0; 20] },
    ];
    let entries = vec![
        UEntryHeader { reference: 1, file_type: 2, file_subtype: 3, starting_block: 0, starting_block_offset: 0, file_size: 0x10 },
        UEntryHeader { reference: 1, file_type: 2, file_subtype: 3, starting_block: 1, starting_block_offset: 0, file_size: 0x10 },
    ];
    let mut name = [0u8; 60];
    name[..3].copy_from_slice(b"ttk");
    let named = vec![NamedTagEntryD1 { hash: TagHash(0x80a00001), class_hash: 4, name }];
    let header = LegacyHeader { pkg_id: 0x31, patch_id: 0, language: PackageLanguage::French, platform: PackagePlatform::PS3 };
    let mut pkg = PackageD1Legacy::from_tables("ps3_w_0031_0.pkg", image, header, entries, blocks, named);
    assert_eq!(pkg.pkg_id(), 0x31);
    assert_eq!(pkg.language(), PackageLanguage::French);
    assert_eq!(pkg.platform(), PackagePlatform::PS3);
    assert_eq!(pkg.endianness(), Endian::Big);
    assert_eq!(pkg.named_tags()[0].name.trim_end_matches('\0'), "ttk");
    // Flag 0x1 does not mean compression here.
    assert_eq!(pkg.read_entry(0, &no_codec).unwrap(), pattern(1, 0x10));
    assert_eq!(pkg.read_entry(1, &no_codec), Err(PkgError::CodecUnavailable));
    let codec = |_: OodleVersion, _: &Vec<u8>| -> Option<(i64, Vec<u8>)> { Some((4, vec![0x12u8; BLOCK])) };
    assert_eq!(pkg.read_entry(1, &codec).unwrap(), vec![0x12u8; 0x10]);
    assert_eq!(pkg.read_block(1, &codec).unwrap().len(), BLOCK);
    assert_eq!(pkg.get_block_raw(1).unwrap(), pattern(1, 0x10));
}

#[test]
fn generations_open_their_layouts() {
    let keys = KeyTable::new();
    let beta = beta_image(5, 0, 2, &[entry_at(0, 0, 2)], &[plain_block(0x1000, 2)], &[(0x1000, vec![7, 8])]);
    let opened = DestinyVersion::Destiny2Beta.open("w64_a_0005_0.pkg", beta.clone(), &keys).unwrap();
    assert!(matches!(opened, AnyPackage::D2Beta(_)));
    assert_eq!(opened.pkg_id(), 5);
    let mut opened = opened;
    assert_eq!(opened.read_entry(0, &no_codec).unwrap(), vec![7, 8]);
    assert_eq!(opened.sibling_path(1), "w64_a_0005_1.pkg");
    for v in [DestinyVersion::Destiny2Forsaken, DestinyVersion::Destiny2Shadowkeep] {
        let opened = v.open("w64_x_0123_1.pkg", prebl_image(), &keys).unwrap();
        assert!(matches!(opened, AnyPackage::D2PreBL(_)));
        assert_eq!(opened.named_tags().len(), 2);
        assert_eq!(opened.hash64_table().len(), 2);
    }
    for v in [
        DestinyVersion::Destiny2BeyondLight,
        DestinyVersion::Destiny2WitchQueen,
        DestinyVersion::Destiny2Lightfall,
        DestinyVersion::Destiny2TheFinalShape,
    ] {
        let opened = v.open("w64_y_03ac_6.pkg", beyondlight_image(), &keys).unwrap();
        match opened {
            AnyPackage::D2BeyondLight(p) => assert_eq!(p.common.version, v),
            _ => panic!("another reader"),
        }
    }
    for v in [DestinyVersion::DestinyFirstLookAlpha, DestinyVersion::DestinyRiseOfIron] {
        let opened = v.open("ps4_z_0077_2.pkg", roi_image(), &keys).unwrap();
        assert!(matches!(opened, AnyPackage::D1RiseOfIron(_)));
        assert_eq!(opened.patch_id(), 2);
        assert_eq!(opened.language(), PackageLanguage::Neutral);
        assert_eq!(opened.platform(), PackagePlatform::PS4);
        assert_eq!(opened.endianness(), Endian::Little);
        assert_eq!(opened.entries().len(), 1);
        assert!(opened.entry(1).is_none());
    }
    let opened = DestinyVersion::DestinyInternalAlpha.open("360_q_0021_0.pkg", alpha_image(), &keys).unwrap();
    assert!(matches!(opened, AnyPackage::D1InternalAlpha(_)));
    // An image of another generation is refused.
    assert!(matches!(DestinyVersion::Destiny2BeyondLight.open("w64_a_0005_0.pkg", beta, &keys), Err(PkgError::HeaderInvalid)));
}

#[test]
fn opened_archive_takes_patch_files() {
    let mut sibling_block = plain_block(0, 4);
    sibling_block.patch_id = 1;
    let image = beta_image(5, 0, 2, &[entry_at(0, 0, 4)], &[sibling_block], &[]);
    let mut opened = DestinyVersion::Destiny2Beta.open("w64_a_0005_0.pkg", image, &KeyTable::new()).unwrap();
    assert_eq!(opened.read_entry(0, &no_codec), Err(PkgError::SiblingMissing(1)));
    opened.add_patch_file(1, vec![9, 8, 7, 6, 5]);
    assert_eq!(opened.read_entry(0, &no_codec), Ok(vec![9, 8, 7, 6]));
}

#[test]
fn opened_archive_gives_its_blocks() {
    let image = beta_image(5, 0, 2, &[entry_at(0, 0, 2)], &[plain_block(0x1000, 2)], &[(0x1000, vec![7, 8])]);
    let mut opened = DestinyVersion::Destiny2Beta.open("w64_a_0005_0.pkg", image, &KeyTable::new()).unwrap();
    let first = opened.get_block(0, &no_codec).unwrap();
    assert_eq!(*first, vec![7, 8]);
    // The second request is answered with the block that is kept.
    let second = opened.get_block(0, &no_codec).unwrap();
    assert!(std::sync::Arc::ptr_eq(&first, &second));
    assert!(matches!(opened.get_block(1, &no_codec), Err(PkgError::TableOutOfBounds)));
}

#[test]
fn patch_files_are_read_when_an_entry_needs_them() {
    let mut sibling_block = plain_block(0, 4);
    sibling_block.patch_id = 1;
    let image = beta_image(5, 0, 2, &[entry_at(0, 0, 4)], &[sibling_block], &[]);
    let asked = std::cell::RefCell::new(Vec::<String>::new());
    let open = |path: &str| -> Option<Vec<u8>> {
        asked.borrow_mut().push(path.to_string());
        if path == "w64_a_0005_1.pkg" {
            Some(vec![9, 8, 7, 6, 5])
        } else {
            None
        }
    };
    let mut opened = DestinyVersion::Destiny2Beta.open("w64_a_0005_0.pkg", image.clone(), &KeyTable::new()).unwrap();
    // Without an attempt left the patch file is not asked for.
    assert_eq!(opened.read_entry_with_patches(0, &open, &no_codec, 0), Err(PkgError::SiblingMissing(1)));
    assert!(asked.borrow().is_empty());
    assert_eq!(opened.read_entry_with_patches(0, &open, &no_codec, 1), Ok(vec![9, 8, 7, 6]));
    assert_eq!(*asked.borrow(), vec!["w64_a_0005_1.pkg".to_string()]);
    // The file is kept: it is not asked for again.
    assert_eq!(opened.read_entry_with_patches(0, &open, &no_codec, 1), Ok(vec![9, 8, 7, 6]));
    assert_eq!(asked.borrow().len(), 1);
    assert_eq!(opened.read_entry_with_patches(1, &open, &no_codec, 1), Err(PkgError::TableOutOfBounds));
    // A patch file that cannot be read leaves the error.
    let mut other = plain_block(0, 4);
    other.patch_id = 3;
    let image = beta_image(5, 0, 2, &[entry_at(0, 0, 4)], &[other], &[]);
    let mut opened = DestinyVersion::Destiny2Beta.open("w64_a_0005_0.pkg", image, &KeyTable::new()).unwrap();
    assert_eq!(opened.read_entry_with_patches(0, &open, &no_codec, 4), Err(PkgError::SiblingMissing(3)));
    assert_eq!(asked.borrow().last().unwrap(), "w64_a_0005_3.pkg");
}

#[test]
fn second_read_loads_no_block() {
    let loads = Cell::new(0usize);
    let codec = |_: OodleVersion, _: &Vec<u8>| -> Option<(i64, Vec<u8>)> {
        loads.set(loads.get() + 1);
        Some((BLOCK as i64, vec![loads.get() as u8; BLOCK]))
    };
    let mut first = plain_block(0x1000, 8);
    first.flags = 1;
    let mut second = plain_block(0x1100, 8);
    second.flags = 1;
    let image = beta_image(
        5,
        0,
        2,
        &[entry_at(0, 0x40, BLOCK as u32)],
        &[first, second],
        &[(0x1000, vec![1; 8]), (0x1100, vec![2; 8])],
    );
    let mut opened = DestinyVersion::Destiny2Beta.open("w64_a_0005_0.pkg", image, &KeyTable::new()).unwrap();
    let a = opened.read_entry(0, &codec).unwrap();
    assert_eq!(a.len(), BLOCK);
    assert_eq!(loads.get(), 2);
    let b = opened.read_entry(0, &codec).unwrap();
    assert_eq!(a, b);
    assert_eq!(loads.get(), 2);
}
