use destiny_pkg::bytes::Endian;
use destiny_pkg::crypto::KeyTable;
use destiny_pkg::d2_shared::PackageNamedTagEntry;
use destiny_pkg::error::PkgError;
use destiny_pkg::manager::discovery::{
    candidate_id, discover, header_id, is_package_file, lex_less, needs_header, select_latest,
};
use destiny_pkg::manager::lookup_cache::{EntryFilter, HashTableEntryShort, PackageTables, TagLookupIndex};
use destiny_pkg::manager::package_path::pkg_id_of_path;
use destiny_pkg::manager::path_cache::{cache_key, PathCache, PathCacheEntry};
use destiny_pkg::manager::{PackageManager, PackagePath};
use destiny_pkg::oodle::OodleVersion;
use destiny_pkg::package::{PackageLanguage, PackagePlatform, UEntryHeader, UHashTableEntry};
use destiny_pkg::tag::{TagHash, TagHash64};
use destiny_pkg::version::{DestinyVersion, GameVersion, MarathonVersion, Version};
use std::collections::HashMap;

fn put(image: &mut Vec<u8>, at: usize, bytes: &[u8]) {
    if image.len() < at + bytes.len() {
        image.resize(at + bytes.len(), 0);
    }
    image[at..at + bytes.len()].copy_from_slice(bytes);
}

/// An image of the beta layout with one entry per given content, each in a
/// block of its own. Blocks carry the patch ids given with them.
fn beta_image(pkg_id: u16, patch_id: u16, language: u16, contents: &[(u16, Vec<u8>)]) -> Vec<u8> {
    let mut image = vec![0u8; 0x168];
    put(&mut image, 0, &38u16.to_le_bytes());
    put(&mut image, 2, &2u16.to_le_bytes());
    put(&mut image, 4, &pkg_id.to_le_bytes());
    put(&mut image, 0x20, &patch_id.to_le_bytes());
    put(&mut image, 0x22, &language.to_le_bytes());
    let entries = 0x200usize;
    let blocks = entries + contents.len() * 16;
    put(&mut image, 0xb4, &(contents.len() as u32).to_le_bytes());
    put(&mut image, 0xb8, &(entries as u32).to_le_bytes());
    put(&mut image, 0xd0, &(contents.len() as u32).to_le_bytes());
    put(&mut image, 0xd4, &(blocks as u32).to_le_bytes());
    image.resize(0x1000, 0);
    let mut at = 0x1000usize;
    for (i, (patch, bytes)) in contents.iter().enumerate() {
        put(&mut image, entries + i * 16, &(0x1000 + i as u32).to_le_bytes());
        put(&mut image, entries + i * 16 + 4, &((8u32 << 9) | (1 << 6)).to_le_bytes());
        let block_info: u64 = i as u64 | ((bytes.len() as u64) << 28);
        put(&mut image, entries + i * 16 + 8, &block_info.to_le_bytes());
        put(&mut image, blocks + i * 48, &(at as u32).to_le_bytes());
        put(&mut image, blocks + i * 48 + 4, &(bytes.len() as u32).to_le_bytes());
        put(&mut image, blocks + i * 48 + 8, &patch.to_le_bytes());
        put(&mut image, blocks + i * 48 + 47, &[0]);
        if *patch == patch_id {
            put(&mut image, at, bytes);
        }
        at += 0x100;
    }
    image
}

fn no_codec(_: OodleVersion, _: &Vec<u8>) -> Option<(i64, Vec<u8>)> {
    None
}

fn no_files(_: &str) -> Option<Vec<u8>> {
    None
}

fn beta() -> GameVersion {
    GameVersion::Destiny(DestinyVersion::Destiny2Beta)
}

#[test]
fn file_name_is_taken_apart() {
    let p = PackagePath::parse("some/dir/ps3_arch_fallen_0059_0.pkg").unwrap();
    assert_eq!(p.platform, "ps3");
    assert_eq!(p.name, "arch_fallen");
    assert_eq!(p.language, None);
    assert_eq!(p.id, "0059");
    assert_eq!(p.patch, 0);
    assert_eq!(p.path, "some/dir/ps3_arch_fallen_0059_0.pkg");
    assert_eq!(p.filename, "ps3_arch_fallen_0059_0.pkg");
    assert_eq!(p.to_string(), "ps3_arch_fallen_0059_0.pkg");
    let q = p.clone();
    assert_eq!(q.name, p.name);
    assert_eq!(q.patch, p.patch);
}

#[test]
fn file_name_may_carry_a_language() {
    let p = PackagePath::parse("w64_sr_audio_de_0123_7.pkg").unwrap();
    assert_eq!(p.platform, "w64");
    assert_eq!(p.name, "sr_audio");
    assert_eq!(p.language, Some("de".to_string()));
    assert_eq!(p.id, "0123");
    assert_eq!(p.patch, 7);
    // With four parts there is no room for a language.
    let p = PackagePath::from_file_name("x", "w64_ui_0059_3.pkg").unwrap();
    assert_eq!(p.platform, "w64");
    assert_eq!(p.name, "ui");
    assert_eq!(p.language, None);
    assert_eq!(p.id, "0059");
    assert_eq!(p.patch, 3);
    assert_eq!(p.path, "x");
    // A part of other length before the id belongs to the name.
    let p = PackagePath::from_file_name("x", "w64_sr_audio_jpn_0123_7.pkg").unwrap();
    assert_eq!(p.name, "sr_audio_jpn");
    assert_eq!(p.language, None);
    // The length counts in bytes.
    let p = PackagePath::from_file_name("x", "w64_sr_\u{e9}_0123_7.pkg").unwrap();
    assert_eq!(p.name, "sr");
    assert_eq!(p.language, Some("\u{e9}".to_string()));
}

#[test]
fn file_names_of_other_forms_are_not_archives() {
    assert!(PackagePath::parse("w64_foo_0.pkg").is_none());
    assert!(PackagePath::parse("nothing.pkg").is_none());
    assert!(PackagePath::parse("w64_foo_0059_x.pkg").is_none());
    assert!(PackagePath::parse("w64_foo_0059_256.pkg").is_none());
    assert!(PackagePath::parse("w64_foo_0059_.pkg").is_none());
    assert!(PackagePath::parse("").is_none());
    assert_eq!(PackagePath::parse("w64_foo_0059_255.pkg").unwrap().patch, 255);
    assert_eq!(PackagePath::parse("w64_foo_0059_+5.bak.pkg").unwrap().patch, 5);
    assert_eq!(PackagePath::parse("w64_foo_0059_12").unwrap().patch, 12);
    assert_eq!(PackagePath::parse("w64__0059_1.pkg").unwrap().name, "");
    // The id need not be a number.
    assert_eq!(PackagePath::parse("w64_globals_unp1_0.pkg").unwrap().id, "unp1");
}

#[test]
fn unknown_file_names_get_default_parts() {
    let p = PackagePath::parse_with_defaults("dir/readme.txt");
    assert_eq!(p.platform, "unknown");
    assert_eq!(p.name, "unknown");
    assert_eq!(p.id, "unknown");
    assert_eq!(p.language, None);
    assert_eq!(p.patch, 0);
    assert_eq!(p.path, "dir/readme.txt");
    assert_eq!(p.filename, "readme.txt");
    let p = PackagePath::parse_with_defaults("dir/w64_foo_0059_2.pkg");
    assert_eq!(p.id, "0059");
    assert_eq!(p.patch, 2);
    let p = PackagePath::with_defaults("w64_foo_0059_2.pkg", None);
    assert_eq!(p.id, "unknown");
    assert_eq!(p.filename, "w64_foo_0059_2.pkg");
}

#[test]
fn archive_id_is_read_from_the_path() {
    assert_eq!(pkg_id_of_path("dir/w64_foo_0059_0.pkg"), Some(0x59));
    assert_eq!(pkg_id_of_path("dir/w64_foo_043c_12.pkg"), Some(0x43c));
    assert_eq!(pkg_id_of_path("dir/w64_foo_FFFF_0.pkg"), Some(0xffff));
    assert_eq!(pkg_id_of_path("dir/w64_foo_10000_0.pkg"), None);
    assert_eq!(pkg_id_of_path("dir/w64_foo_unp1_0.pkg"), None);
    assert_eq!(pkg_id_of_path("dir/w64_foo_en_0.pkg"), None);
    assert_eq!(pkg_id_of_path("nounderscore"), None);
    // With one underscore the part before it counts.
    assert_eq!(pkg_id_of_path("1f_0.pkg"), Some(0x1f));
    assert_eq!(pkg_id_of_path("dir/1f_0.pkg"), None);
}

#[test]
fn archives_end_in_pkg() {
    assert!(is_package_file("a.pkg"));
    assert!(is_package_file("a.PKG"));
    assert!(is_package_file("a.pKg"));
    assert!(is_package_file(".pkg"));
    assert!(!is_package_file("pkg"));
    assert!(!is_package_file("a.pkg.bak"));
    assert!(!is_package_file("a.pk"));
    assert!(!is_package_file("a_pkg"));
    assert!(!is_package_file(""));
    assert!(needs_header("w64_foo_unp1_0.pkg"));
    assert!(needs_header("w64_foo_0059_0.pkg"));
    assert!(!needs_header("w64_foo_unp1_0.txt"));
}

#[test]
fn texts_are_ordered_by_their_bytes() {
    assert!(lex_less(b"a", b"b"));
    assert!(!lex_less(b"b", b"a"));
    assert!(!lex_less(b"a", b"a"));
    assert!(lex_less(b"", b"a"));
    assert!(!lex_less(b"a", b""));
    assert!(lex_less(b"ab", b"abc"));
    assert!(lex_less(b"w64_foo_0059_10.pkg", b"w64_foo_0059_2.pkg"));
    assert!(lex_less(&[0x7f], &[0x80]));
    let texts = ["", "a", "ab", "b", "\u{e9}", "w64_1.pkg", "w64_10.pkg", "w64_2.pkg"];
    for x in texts {
        for y in texts {
            assert_eq!(lex_less(x.as_bytes(), y.as_bytes()), x < y);
        }
    }
}

#[test]
fn latest_patch_is_kept() {
    let files = vec![
        "dir/w64_foo_0059_1.pkg".to_string(),
        "dir/w64_foo_0059_0.pkg".to_string(),
        "dir/w64_foo_0059_2.pkg".to_string(),
        "dir/w64_bar_005a_0.pkg".to_string(),
        "dir/notes.txt".to_string(),
    ];
    let found = discover(&files, beta(), &KeyTable::new(), &no_files);
    assert_eq!(found.len(), 4);
    assert_eq!(found[0], (0x59, "dir/w64_foo_0059_1.pkg".to_string()));
    let latest = select_latest(&found);
    assert_eq!(latest.len(), 2);
    assert_eq!(latest[&0x59], "dir/w64_foo_0059_2.pkg");
    assert_eq!(latest[&0x5a], "dir/w64_bar_005a_0.pkg");
    let manager = PackageManager::new("dir", beta(), &found, KeyTable::new(), &no_files).unwrap();
    assert_eq!(manager.package_paths.len(), 2);
    assert_eq!(manager.package_paths[&0x0059].path, "dir/w64_foo_0059_2.pkg");
    assert_eq!(manager.package_paths[&0x0059].patch, 2);
    assert_eq!(manager.package_paths[&0x005a].filename, "w64_bar_005a_0.pkg");
    assert_eq!(manager.package_ids, vec![0x59, 0x5a]);
    assert_eq!(manager.platform, PackagePlatform::Win64);
    assert_eq!(manager.package_dir, "dir");
    assert_eq!(manager.cache_key(), "d2_beta_w64");
}

#[test]
fn latest_is_the_last_in_the_order_of_bytes() {
    let found = vec![
        (1u16, "p_a_0001_9.pkg".to_string()),
        (1u16, "p_a_0001_10.pkg".to_string()),
        (2u16, "z".to_string()),
        (2u16, "a".to_string()),
        (2u16, "z".to_string()),
    ];
    let latest = select_latest(&found);
    assert_eq!(latest[&1], "p_a_0001_9.pkg");
    assert_eq!(latest[&2], "z");
    assert!(select_latest(&Vec::new()).is_empty());
}

#[test]
fn archive_id_comes_from_the_header_when_the_name_has_none() {
    let english = beta_image(0x321, 0, 1, &[]);
    let neutral = beta_image(0x322, 0, 0, &[]);
    let french = beta_image(0x323, 0, 2, &[]);
    let mut disk: HashMap<String, Vec<u8>> = HashMap::new();
    disk.insert("d/w64_globals_unp1_0.pkg".to_string(), english.clone());
    disk.insert("d/w64_globals_unp2_0.pkg".to_string(), neutral);
    disk.insert("d/w64_globals_unp3_0.pkg".to_string(), french.clone());
    disk.insert("d/w64_globals_unp4_0.pkg".to_string(), vec![1, 2, 3]);
    disk.insert("d/w64_speech_fr_0060_0.pkg".to_string(), beta_image(0x60, 0, 2, &[]));
    disk.insert("d/w64_speech_en_0061_0.pkg".to_string(), beta_image(0x61, 0, 1, &[]));
    disk.insert("d/w64_odd_0062_0.pkg".to_string(), vec![1, 2, 3]);
    let open = |path: &str| -> Option<Vec<u8>> { disk.get(path).cloned() };
    let files = vec![
        "d/w64_globals_unp1_0.pkg".to_string(),
        "d/w64_globals_unp2_0.pkg".to_string(),
        "d/w64_globals_unp3_0.pkg".to_string(),
        "d/w64_globals_unp4_0.pkg".to_string(),
        "d/w64_globals_unp5_0.pkg".to_string(),
        "d/w64_foo_0059_0.pkg".to_string(),
        "d/w64_speech_fr_0060_0.pkg".to_string(),
        "d/w64_speech_en_0061_0.pkg".to_string(),
        "d/w64_odd_0062_0.pkg".to_string(),
    ];
    let found = discover(&files, beta(), &KeyTable::new(), &open);
    assert_eq!(
        found,
        vec![
            (0x321, "d/w64_globals_unp1_0.pkg".to_string()),
            (0x322, "d/w64_globals_unp2_0.pkg".to_string()),
            (0x59, "d/w64_foo_0059_0.pkg".to_string()),
            (0x61, "d/w64_speech_en_0061_0.pkg".to_string()),
            (0x62, "d/w64_odd_0062_0.pkg".to_string()),
        ]
    );
    assert_eq!(header_id(beta(), "x_0.pkg", english, &KeyTable::new()), Some((0x321, PackageLanguage::English)));
    assert_eq!(header_id(beta(), "x_0.pkg", french, &KeyTable::new()), Some((0x323, PackageLanguage::French)));
    assert_eq!(header_id(beta(), "x_0.pkg", vec![], &KeyTable::new()), None);
    assert_eq!(candidate_id("a_b_unp1_0.pkg", Some((7, PackageLanguage::French))), None);
    assert_eq!(candidate_id("a_b_unp1_0.pkg", Some((7, PackageLanguage::Neutral))), Some(7));
    assert_eq!(candidate_id("a_b_unp1_0.pkg", None), None);
    // An archive in another language is left out, whatever its name.
    assert_eq!(candidate_id("a_b_0008_0.pkg", Some((7, PackageLanguage::French))), None);
    assert_eq!(candidate_id("a_b_0008_0.pkg", Some((7, PackageLanguage::English))), Some(8));
    assert_eq!(candidate_id("a_b_0008_0.pkg", None), Some(8));
    assert_eq!(candidate_id("a_b_0008_0.txt", Some((7, PackageLanguage::English))), None);
}

#[test]
fn fleet_needs_archives_and_a_platform() {
    let r = PackageManager::new("dir", beta(), &Vec::new(), KeyTable::new(), &no_files);
    assert!(matches!(r, Err(PkgError::NotFound)));
    let found = vec![(1u16, "dir/w32_foo_0001_0.pkg".to_string())];
    let r = PackageManager::new("dir", beta(), &found, KeyTable::new(), &no_files);
    assert!(matches!(r, Err(PkgError::Unimplemented)));
    // An archive that can be opened tells the platform itself.
    let image = beta_image(1, 0, 1, &[]);
    let open = |path: &str| -> Option<Vec<u8>> {
        if path == "dir/w32_foo_0001_0.pkg" {
            Some(image.clone())
        } else {
            None
        }
    };
    let manager = PackageManager::new("dir", beta(), &found, KeyTable::new(), &open).unwrap();
    assert_eq!(manager.platform, PackagePlatform::Win64);
    assert_eq!(manager.cache_key(), "d2_beta_w64");
}

#[test]
fn platform_is_told_from_the_first_archive_or_its_name() {
    let image = beta_image(1, 0, 1, &[]);
    let open = |path: &str| -> Option<Vec<u8>> {
        if path == "dir/ps4_foo_0001_0.pkg" {
            Some(image.clone())
        } else if path == "dir/ps4_bad_0002_0.pkg" {
            Some(vec![0u8; 4])
        } else {
            None
        }
    };
    let keys = KeyTable::new();
    // The beta image carries platform 2, whatever the file name says.
    let first = PackagePath::parse_with_defaults("dir/ps4_foo_0001_0.pkg");
    assert_eq!(PackageManager::detect_platform(beta(), &first, &keys, &open), Ok(PackagePlatform::Win64));
    // An image that cannot be opened leaves the name to decide.
    let bad = PackagePath::parse_with_defaults("dir/ps4_bad_0002_0.pkg");
    assert_eq!(PackageManager::detect_platform(beta(), &bad, &keys, &open), Ok(PackagePlatform::PS4));
    // So does a file that cannot be read.
    let gone = PackagePath::parse_with_defaults("dir/360_gone_0003_0.pkg");
    assert_eq!(PackageManager::detect_platform(beta(), &gone, &keys, &open), Ok(PackagePlatform::X360));
    let odd = PackagePath::parse_with_defaults("dir/w32_gone_0003_0.pkg");
    assert_eq!(PackageManager::detect_platform(beta(), &odd, &keys, &open), Err(PkgError::Unimplemented));
}

#[test]
fn kept_paths_are_listed_in_the_order_of_first_occurrence() {
    let found = vec![
        (7u16, "d/w64_a_0007_0.pkg".to_string()),
        (3u16, "d/w64_b_0003_1.pkg".to_string()),
        (7u16, "d/w64_a_0007_1.pkg".to_string()),
        (3u16, "d/w64_b_0003_0.pkg".to_string()),
    ];
    let (paths, ids) = PackageManager::latest_package_paths(&found);
    assert_eq!(ids, vec![7, 3]);
    assert_eq!(paths.len(), 2);
    assert_eq!(paths[&7].path, "d/w64_a_0007_1.pkg");
    assert_eq!(paths[&7].patch, 1);
    assert_eq!(paths[&3].path, "d/w64_b_0003_1.pkg");
    assert_eq!(paths[&3].name, "b");
    let (paths, ids) = PackageManager::latest_package_paths(&Vec::new());
    assert!(paths.is_empty());
    assert!(ids.is_empty());
}

fn entry(reference: u32, file_type: u8, file_subtype: u8, size: u32) -> UEntryHeader {
    UEntryHeader { reference, file_type, file_subtype, starting_block: 0, starting_block_offset: 0, file_size: size }
}

fn named(hash: u32, class_hash: u32, name: &str) -> PackageNamedTagEntry {
    PackageNamedTagEntry { hash: TagHash(hash), class_hash, name: name.to_string() }
}

fn tables() -> Vec<PackageTables> {
    vec![
        PackageTables {
            pkg_id: 0x59,
            entries: vec![entry(1, 8, 0, 10), entry(2, 26, 5, 20), entry(1, 26, 6, 30)],
            hashes: vec![
                UHashTableEntry { hash64: 0xaaaa, hash32: TagHash::new(0x59, 1), reference: TagHash(0x80809ad8) },
                UHashTableEntry { hash64: 0xbbbb, hash32: TagHash::none(), reference: TagHash(0x80809ad8) },
                UHashTableEntry { hash64: 0xcccc, hash32: TagHash(0x80800000), reference: TagHash(1) },
            ],
            named_tags: vec![named(TagHash::new(0x59, 0).0, 7, "apple"), named(TagHash::new(0x59, 2).0, 8, "pear")],
        },
        PackageTables {
            pkg_id: 0x5a,
            entries: vec![entry(1, 26, 5, 40)],
            hashes: vec![UHashTableEntry { hash64: 0xaaaa, hash32: TagHash::new(0x5a, 0), reference: TagHash(7) }],
            named_tags: vec![named(TagHash::new(0x5a, 0).0, 7, "apple"), named(TagHash::new(0x59, 0).0, 9, "fig")],
        },
    ]
}

fn manager_with_index() -> PackageManager {
    let found = vec![(0x59u16, "dir/w64_foo_0059_0.pkg".to_string()), (0x5au16, "dir/w64_bar_005a_0.pkg".to_string())];
    let mut manager = PackageManager::new("dir", beta(), &found, KeyTable::new(), &no_files).unwrap();
    manager.build_lookup_tables(tables());
    manager
}

#[test]
fn index_answers_for_tags() {
    let manager = manager_with_index();
    assert_eq!(manager.get_entry(TagHash::new(0x59, 1)), Some(entry(2, 26, 5, 20)));
    assert_eq!(manager.get_entry(TagHash::new(0x5a, 0)), Some(entry(1, 26, 5, 40)));
    assert_eq!(manager.get_entry(TagHash::new(0x59, 3)), None);
    assert_eq!(manager.get_entry(TagHash::new(0x5b, 0)), None);
    assert_eq!(manager.get_entry(TagHash::none()), None);
    assert_eq!(manager.lookup.package_ids, vec![0x59, 0x5a]);
}

#[test]
fn index_finds_entries_across_archives() {
    let manager = manager_with_index();
    let found = manager.get_all_by_reference(1);
    assert_eq!(
        found,
        vec![
            (TagHash::new(0x59, 0), entry(1, 8, 0, 10)),
            (TagHash::new(0x59, 2), entry(1, 26, 6, 30)),
            (TagHash::new(0x5a, 0), entry(1, 26, 5, 40)),
        ]
    );
    assert!(manager.get_all_by_reference(3).is_empty());
    let by_type: Vec<TagHash> = manager.get_all_by_type(26, None).iter().map(|(t, _)| *t).collect();
    assert_eq!(by_type, vec![TagHash::new(0x59, 1), TagHash::new(0x59, 2), TagHash::new(0x5a, 0)]);
    let by_subtype: Vec<TagHash> = manager.get_all_by_type(26, Some(5)).iter().map(|(t, _)| *t).collect();
    assert_eq!(by_subtype, vec![TagHash::new(0x59, 1), TagHash::new(0x5a, 0)]);
    assert_eq!(manager.lookup.get_all_matching(EntryFilter::Reference(2)).len(), 1);
}

#[test]
fn index_knows_names() {
    let manager = manager_with_index();
    assert_eq!(manager.get_named_tag("apple", 7), Some(TagHash::new(0x59, 0)));
    assert_eq!(manager.get_named_tag("pear", 8), Some(TagHash::new(0x59, 2)));
    assert_eq!(manager.get_named_tag("pear", 7), None);
    assert_eq!(manager.get_named_tag("plum", 7), None);
    assert_eq!(
        manager.get_named_tags_by_class(7),
        vec![("apple".to_string(), TagHash::new(0x59, 0)), ("apple".to_string(), TagHash::new(0x5a, 0))]
    );
    assert!(manager.get_named_tags_by_class(1).is_empty());
    assert_eq!(manager.get_tag_name(TagHash::new(0x59, 0)), Some("apple".to_string()));
    assert_eq!(manager.get_tag_name(TagHash::new(0x59, 2)), Some("pear".to_string()));
    assert_eq!(manager.get_tag_name(TagHash::new(0x59, 1)), None);
    assert_eq!(manager.lookup.named_tags.len(), 4);
}

#[test]
fn aliases_with_invalid_tags_are_left_out() {
    let manager = manager_with_index();
    let aliases = &manager.lookup.tag64_entries;
    assert_eq!(aliases.len(), 1);
    // The later archive takes the place of the earlier under the same alias.
    assert_eq!(aliases[&0xaaaa].hash32, TagHash::new(0x5a, 0));
    assert_eq!(aliases[&0xaaaa].reference, TagHash(7));
    assert!(!aliases.contains_key(&0xbbbb));
    assert!(!aliases.contains_key(&0xcccc));
    assert_eq!(manager.get_tag64_for_tag32(TagHash::new(0x5a, 0)), Some(TagHash64(0xaaaa)));
    assert_eq!(manager.get_tag64_for_tag32(TagHash::new(0x59, 1)), Some(TagHash64(0xaaaa)));
    assert_eq!(manager.get_tag64_for_tag32(TagHash::new(0x59, 0)), None);
}

#[test]
fn later_archive_replaces_entries_of_its_id() {
    let mut all = tables();
    all.push(PackageTables { pkg_id: 0x59, entries: vec![entry(9, 9, 9, 9)], hashes: vec![], named_tags: vec![] });
    let index = TagLookupIndex::build(all);
    assert_eq!(index.package_ids, vec![0x59, 0x5a]);
    assert_eq!(index.tag32_entries_by_pkg[&0x59], vec![entry(9, 9, 9, 9)]);
    assert_eq!(index.tag32_entries_by_pkg[&0x5a].len(), 1);
    let empty = TagLookupIndex::build(Vec::new());
    assert!(empty.package_ids.is_empty());
    assert!(empty.named_tags.is_empty());
}

#[test]
fn tags_of_long_tables_count_modulo_8192() {
    let entries: Vec<UEntryHeader> = (0..8200u32).map(|i| entry(i % 8192, 1, 1, i)).collect();
    let index = TagLookupIndex::build(vec![PackageTables { pkg_id: 3, entries, hashes: vec![], named_tags: vec![] }]);
    let found = index.get_all_matching(EntryFilter::Reference(5));
    assert_eq!(found.len(), 2);
    assert_eq!(found[0].0, TagHash::new(3, 5));
    assert_eq!(found[0].1.file_size, 5);
    assert_eq!(found[1].0, TagHash::new(3, 5));
    assert_eq!(found[1].1.file_size, 8197);
}

#[test]
fn tags_are_read_through_the_fleet() {
    let first = beta_image(0x59, 1, 1, &[(1, vec![1, 2, 3, 4]), (0, vec![9, 9])]);
    let second = beta_image(0x5a, 0, 1, &[(0, vec![5, 6, 7])]);
    let mut disk: HashMap<String, Vec<u8>> = HashMap::new();
    disk.insert("dir/w64_foo_0059_1.pkg".to_string(), first.clone());
    disk.insert("dir/w64_bar_005a_0.pkg".to_string(), second.clone());
    let mut patch0 = vec![0u8; 0x1200];
    put(&mut patch0, 0x1100, &[0xaa, 0xbb]);
    disk.insert("dir/w64_foo_0059_0.pkg".to_string(), patch0);
    let opened = std::cell::RefCell::new(Vec::<String>::new());
    let open = |path: &str| -> Option<Vec<u8>> {
        opened.borrow_mut().push(path.to_string());
        disk.get(path).cloned()
    };
    let found = vec![
        (0x59u16, "dir/w64_foo_0059_1.pkg".to_string()),
        (0x5au16, "dir/w64_bar_005a_0.pkg".to_string()),
        (0x5bu16, "dir/w64_baz_005b_0.pkg".to_string()),
    ];
    let mut manager = PackageManager::new("dir", beta(), &found, KeyTable::new(), &open).unwrap();
    let keys = KeyTable::new();
    let tables = vec![
        PackageTables::of(&beta().open("dir/w64_foo_0059_1.pkg", first, &keys).unwrap()),
        PackageTables::of(&beta().open("dir/w64_bar_005a_0.pkg", second, &keys).unwrap()),
    ];
    assert_eq!(tables[0].pkg_id, 0x59);
    assert_eq!(tables[0].entries.len(), 2);
    manager.build_lookup_tables(tables);
    opened.borrow_mut().clear();
    assert_eq!(manager.read_tag(TagHash::new(0x59, 0), &open, &no_codec), Ok(vec![1, 2, 3, 4]));
    assert_eq!(manager.read_tag(TagHash::new(0x5a, 0), &open, &no_codec), Ok(vec![5, 6, 7]));
    // An archive is opened once.
    assert_eq!(manager.read_tag(TagHash::new(0x59, 0), &open, &no_codec), Ok(vec![1, 2, 3, 4]));
    assert_eq!(*opened.borrow(), vec!["dir/w64_foo_0059_1.pkg".to_string(), "dir/w64_bar_005a_0.pkg".to_string()]);
    assert_eq!(manager.pkgs.len(), 2);
    // A block in another patch is read from that patch's file, which is
    // asked for when it is needed.
    assert_eq!(manager.read_tag(TagHash::new(0x59, 1), &open, &no_codec), Ok(vec![0xaa, 0xbb]));
    assert_eq!(opened.borrow().last().unwrap(), "dir/w64_foo_0059_0.pkg");
    assert_eq!(manager.get_entry(TagHash::new(0x59, 1)).unwrap().file_size, 2);
    // No such entry, no such archive, no such file.
    assert_eq!(manager.read_tag(TagHash::new(0x59, 2), &open, &no_codec), Err(PkgError::TableOutOfBounds));
    assert_eq!(manager.read_tag(TagHash::new(0x77, 0), &open, &no_codec), Err(PkgError::NotFound));
    assert_eq!(manager.read_tag(TagHash::new(0x5b, 0), &open, &no_codec), Err(PkgError::NotFound));
    assert_eq!(manager.get_or_load_pkg(0x59, &open), Ok(()));
    assert_eq!(manager.get_or_load_pkg(0x77, &open), Err(PkgError::NotFound));
}

#[test]
fn missing_patch_file_is_reported() {
    let image = beta_image(0x59, 1, 1, &[(0, vec![9, 9])]);
    let open = |path: &str| -> Option<Vec<u8>> {
        if path == "dir/w64_foo_0059_1.pkg" {
            Some(image.clone())
        } else {
            None
        }
    };
    let found = vec![(0x59u16, "dir/w64_foo_0059_1.pkg".to_string())];
    let mut manager = PackageManager::new("dir", beta(), &found, KeyTable::new(), &open).unwrap();
    assert_eq!(manager.read_tag(TagHash::new(0x59, 0), &open, &no_codec), Err(PkgError::SiblingMissing(0)));
    assert_eq!(manager.pkgs.len(), 1);
}

#[test]
fn aliases_are_read_through_the_fleet() {
    let image = beta_image(0x59, 0, 1, &[(0, vec![1, 2, 3, 4])]);
    let open = |_: &str| -> Option<Vec<u8>> { Some(image.clone()) };
    let found = vec![(0x59u16, "dir/w64_foo_0059_0.pkg".to_string())];
    let mut manager = PackageManager::new("dir", beta(), &found, KeyTable::new(), &open).unwrap();
    manager.build_lookup_tables(vec![PackageTables {
        pkg_id: 0x59,
        entries: vec![entry(1, 8, 1, 4)],
        hashes: vec![UHashTableEntry { hash64: 0xfeed, hash32: TagHash::new(0x59, 0), reference: TagHash(7) }],
        named_tags: vec![],
    }]);
    assert_eq!(manager.read_tag64(TagHash64(0xfeed), &open, &no_codec), Ok(vec![1, 2, 3, 4]));
    assert_eq!(manager.read_tag64(TagHash64(0xbeef), &open, &no_codec), Err(PkgError::NotFound));
    assert_eq!(manager.read_tag64(TagHash64::none(), &open, &no_codec), Err(PkgError::NotFound));
}

fn cache_entry(version: GameVersion, platform: PackagePlatform, base_path: &str, timestamp: u64) -> PathCacheEntry {
    PathCacheEntry {
        timestamp,
        version,
        platform,
        base_path: base_path.to_string(),
        paths: HashMap::from([(0x59u16, format!("{base_path}/w64_foo_0059_2.pkg"))]),
    }
}

fn ttk() -> GameVersion {
    GameVersion::Destiny(DestinyVersion::DestinyTheTakenKing)
}

#[test]
fn cache_keys_name_generation_and_platform() {
    assert_eq!(cache_key(ttk(), PackagePlatform::PS4), "d1_ttk_ps4");
    assert_eq!(cache_key(beta(), PackagePlatform::Win64), "d2_beta_w64");
    assert_eq!(cache_key(GameVersion::Marathon(MarathonVersion::MarathonAlpha), PackagePlatform::PS5), "ma_alpha_ps5");
    assert_eq!(beta().id(), "d2_beta");
}

#[test]
fn cache_entry_is_found_by_key_or_generation() {
    let mut cache = PathCache::new();
    assert_eq!(cache.cache_version, 4);
    assert_eq!(PathCache::VERSION, 4);
    cache.insert("d2_beta_w64".to_string(), cache_entry(beta(), PackagePlatform::Win64, "a", 10));
    cache.insert("d1_ttk_ps3".to_string(), cache_entry(ttk(), PackagePlatform::PS3, "b", 20));
    cache.insert("d1_ttk_ps4".to_string(), cache_entry(ttk(), PackagePlatform::PS4, "c", 30));
    assert_eq!(cache.versions.len(), 3);
    let found = cache.get_paths(ttk(), Some(PackagePlatform::PS4), None).unwrap().unwrap();
    assert_eq!(found.base_path, "c");
    assert!(cache.get_paths(ttk(), Some(PackagePlatform::Win64), None).unwrap().is_none());
    // Without a platform the only entry of the generation is taken.
    assert_eq!(cache.get_paths(beta(), None, None).unwrap().unwrap().base_path, "a");
    assert_eq!(cache.get_paths(beta(), None, Some("elsewhere")).unwrap().unwrap().base_path, "a");
    let other = GameVersion::Destiny(DestinyVersion::Destiny2Lightfall);
    assert!(cache.get_paths(other, None, None).unwrap().is_none());
    // Of several, the directory decides.
    assert!(matches!(cache.get_paths(ttk(), None, None), Err(PkgError::CacheOutdated)));
    assert_eq!(cache.get_paths(ttk(), None, Some("b")).unwrap().unwrap().platform, PackagePlatform::PS3);
    assert!(cache.get_paths(ttk(), None, Some("z")).unwrap().is_none());
    cache.insert("d1_ttk_360".to_string(), cache_entry(ttk(), PackagePlatform::X360, "b", 40));
    assert!(matches!(cache.get_paths(ttk(), None, Some("b")), Err(PkgError::CacheOutdated)));
    // An entry put under a key that is taken replaces what stood there.
    cache.insert("d1_ttk_ps3".to_string(), cache_entry(ttk(), PackagePlatform::PS3, "q", 50));
    assert_eq!(cache.versions.len(), 4);
    assert_eq!(cache.get_paths(ttk(), Some(PackagePlatform::PS3), None).unwrap().unwrap().base_path, "q");
}

#[test]
fn cache_is_valid_for_its_directory_until_that_changes() {
    let mut cache = PathCache::new();
    cache.insert("d2_beta_w64".to_string(), cache_entry(beta(), PackagePlatform::Win64, "dir", 100));
    let win = Some(PackagePlatform::Win64);
    let paths = PathCache::validate_cache(Some(&cache), beta(), win, "dir", 100).unwrap();
    assert_eq!(paths, HashMap::from([(0x59u16, "dir/w64_foo_0059_2.pkg".to_string())]));
    assert!(PathCache::validate_cache(Some(&cache), beta(), win, "dir", 99).is_ok());
    assert!(PathCache::validate_cache(Some(&cache), beta(), None, "dir", 0).is_ok());
    // The directory changed after the cache was written.
    assert_eq!(PathCache::validate_cache(Some(&cache), beta(), win, "dir", 101), Err(PkgError::CacheOutdated));
    // Another directory.
    assert_eq!(PathCache::validate_cache(Some(&cache), beta(), win, "other", 100), Err(PkgError::CacheOutdated));
    // No entry, no cache.
    assert_eq!(PathCache::validate_cache(Some(&cache), ttk(), win, "dir", 100), Err(PkgError::NotFound));
    assert_eq!(PathCache::validate_cache(Some(&cache), beta(), Some(PackagePlatform::PS4), "dir", 100), Err(PkgError::NotFound));
    assert_eq!(PathCache::validate_cache(None, beta(), win, "dir", 100), Err(PkgError::NotFound));
    // Another version of the format.
    cache.cache_version = 3;
    assert_eq!(PathCache::validate_cache(Some(&cache), beta(), win, "dir", 100), Err(PkgError::CacheOutdated));
}

#[test]
fn fleet_writes_its_cache_entry() {
    let manager = manager_with_index();
    let entry = manager.cache_entry(1234);
    assert_eq!(entry.timestamp, 1234);
    assert_eq!(entry.version, beta());
    assert_eq!(entry.platform, PackagePlatform::Win64);
    assert_eq!(entry.base_path, "dir");
    assert_eq!(
        entry.paths,
        HashMap::from([
            (0x59u16, "dir/w64_foo_0059_0.pkg".to_string()),
            (0x5au16, "dir/w64_bar_005a_0.pkg".to_string()),
        ])
    );
    let mut cache = PathCache::new();
    cache.insert(manager.cache_key(), entry);
    let paths = PathCache::validate_cache(Some(&cache), beta(), None, "dir", 1234).unwrap();
    let mut paths: Vec<(u16, String)> = paths.into_iter().collect();
    paths.sort();
    let again = PackageManager::new("dir", beta(), &paths, KeyTable::new(), &no_files).unwrap();
    assert_eq!(again.package_paths[&0x5a].path, "dir/w64_bar_005a_0.pkg");
    assert_eq!(again.version.endian(), Endian::Little);
}

#[test]
fn index_is_made_from_its_parts() {
    let entries = vec![
        (7u16, vec![entry(1, 2, 3, 4)]),
        (3u16, vec![entry(5, 6, 7, 8), entry(9, 10, 11, 12)]),
        (7u16, vec![entry(13, 14, 15, 16)]),
    ];
    let aliases = vec![
        (0x11u64, HashTableEntryShort { hash32: TagHash::new(7, 0), reference: TagHash(0x1234) }),
        (0x11u64, HashTableEntryShort { hash32: TagHash::new(3, 1), reference: TagHash(0x5678) }),
    ];
    let reverse = vec![(TagHash::new(3, 1).0, TagHash64(0x11))];
    let index = TagLookupIndex::from_parts(entries, &aliases, &reverse, vec![named(1, 2, "a")]);
    assert_eq!(index.package_ids, vec![7, 3]);
    assert_eq!(index.tag32_entries_by_pkg[&7], vec![entry(13, 14, 15, 16)]);
    assert_eq!(index.tag32_entries_by_pkg[&3].len(), 2);
    assert_eq!(index.tag64_entries[&0x11].hash32, TagHash::new(3, 1));
    assert_eq!(index.tag32_to_tag64[&TagHash::new(3, 1).0], TagHash64(0x11));
    assert_eq!(index.named_tags.len(), 1);
    let found = index.get_all_matching(EntryFilter::Reference(13));
    assert_eq!(found, vec![(TagHash::new(7, 0), entry(13, 14, 15, 16))]);
    let mut index = index;
    index.insert_entries(9, vec![entry(13, 0, 0, 0)]);
    assert_eq!(index.package_ids, vec![7, 3, 9]);
    assert_eq!(index.get_all_matching(EntryFilter::Reference(13)).len(), 2);
}
