use destiny_pkg::bytes::Endian;
use destiny_pkg::error::PkgError;
use destiny_pkg::package::{
    append_from_block, classify_file_prebl, str_equal, take_from_block, PackageLanguage, PackagePlatform,
    BLOCK_CACHE_SIZE,
};
use std::str::FromStr;

#[test]
fn files_are_classified_by_type_and_subtype() {
    let cases: Vec<(u8, u8, &str)> = vec![
        (26, 5, "bnk"),
        (26, 6, "wem"),
        (26, 7, "hkx"),
        (26, 8, "bin"),
        (27, 0, "usm"),
        (27, 200, "usm"),
        (32, 1, "texture.header"),
        (32, 2, "texture_cube.header"),
        (32, 4, "vertex.header"),
        (32, 6, "index.header"),
        (32, 3, "bin"),
        (40, 4, "vertex.data"),
        (40, 6, "index.data"),
        (48, 1, "texture.data"),
        (48, 2, "texture_cube.data"),
        (41, 0, "cso.fragment"),
        (41, 1, "cso.vertex"),
        (41, 6, "cso.compute"),
        (41, 2, "cso.unk2"),
        (41, 255, "cso.unk255"),
        (8, 0, "8080"),
        (8, 77, "8080"),
        (0, 0, "bin"),
        (255, 255, "bin"),
    ];
    for (ftype, fsubtype, ext) in cases {
        assert_eq!(classify_file_prebl(ftype, fsubtype), ext);
    }
}

#[test]
fn languages_have_numbers() {
    assert_eq!(PackageLanguage::from_u16(0), Some(PackageLanguage::Neutral));
    assert_eq!(PackageLanguage::from_u16(1), Some(PackageLanguage::English));
    assert_eq!(PackageLanguage::from_u16(6), Some(PackageLanguage::Japanese));
    assert_eq!(PackageLanguage::from_u16(13), Some(PackageLanguage::Korean));
    assert_eq!(PackageLanguage::from_u16(14), None);
    assert_eq!(PackageLanguage::from_u16(0xffff), None);
}

#[test]
fn only_english_and_neutral_count_as_english() {
    for n in 0..14u16 {
        let language = PackageLanguage::from_u16(n).unwrap();
        assert_eq!(language.english_or_none(), n < 2);
    }
}

#[test]
fn platforms_have_numbers() {
    let names = ["tool32", "w32", "w64", "360", "ps3", "tool64", "w64", "ps4", "xboxone", "stadia", "ps5", "scarlett"];
    for (n, name) in names.iter().enumerate() {
        let platform = PackagePlatform::from_u16(n as u16).unwrap();
        assert_eq!(platform.name(), *name);
        assert_eq!(platform.to_string(), *name);
    }
    assert_eq!(PackagePlatform::from_u16(7), Some(PackagePlatform::PS4));
    assert_eq!(PackagePlatform::from_u16(12), None);
}

#[test]
fn old_consoles_are_big_endian() {
    for n in 0..12u16 {
        let platform = PackagePlatform::from_u16(n).unwrap();
        let big = platform == PackagePlatform::PS3 || platform == PackagePlatform::X360;
        assert_eq!(platform.endianness() == Endian::Big, big);
    }
}

#[test]
fn five_platforms_are_read_from_names() {
    assert_eq!(PackagePlatform::parse("ps3"), Some(PackagePlatform::PS3));
    assert_eq!(PackagePlatform::parse("ps4"), Some(PackagePlatform::PS4));
    assert_eq!(PackagePlatform::parse("360"), Some(PackagePlatform::X360));
    assert_eq!(PackagePlatform::parse("w64"), Some(PackagePlatform::Win64));
    assert_eq!(PackagePlatform::parse("xboxone"), Some(PackagePlatform::XboxOne));
    assert_eq!(PackagePlatform::parse("w32"), None);
    assert_eq!(PackagePlatform::parse("PS4"), None);
    assert_eq!(PackagePlatform::parse(""), None);
    assert_eq!(PackagePlatform::from_str("ps4"), Ok(PackagePlatform::PS4));
    assert_eq!(PackagePlatform::from_str("unknown"), Err(PkgError::Unimplemented));
}

#[test]
fn texts_are_compared() {
    assert!(str_equal("abc", "abc"));
    assert!(!str_equal("abc", "abd"));
    assert!(!str_equal("abc", "ab"));
    assert!(str_equal("", ""));
}

#[test]
fn block_parts_are_appended() {
    let block: Vec<u8> = (0..10).collect();
    let mut buffer = vec![0xaa];
    assert_eq!(append_from_block(&mut buffer, &block, 4, 3), 3);
    assert_eq!(buffer, vec![0xaa, 4, 5, 6]);
    assert_eq!(append_from_block(&mut buffer, &block, 8, 100), 2);
    assert_eq!(buffer, vec![0xaa, 4, 5, 6, 8, 9]);
    assert_eq!(append_from_block(&mut buffer, &block, 10, 5), 0);
    assert_eq!(append_from_block(&mut buffer, &block, 0, 0), 0);
    assert_eq!(buffer.len(), 6);
}

#[test]
fn readers_keep_thirty_two_blocks() {
    assert_eq!(BLOCK_CACHE_SIZE, 32);
}

#[test]
fn entry_bytes_are_taken_block_by_block() {
    // An entry of 5 bytes that starts 2 bytes into its first block.
    let mut buffer: Vec<u8> = Vec::new();
    assert_eq!(take_from_block(&mut buffer, &[10, 11, 12, 13], true, 2, 5), Ok(2));
    assert_eq!(buffer, vec![12, 13]);
    assert_eq!(take_from_block(&mut buffer, &[20, 21, 22, 23], false, 2, 5), Ok(3));
    assert_eq!(buffer, vec![12, 13, 20, 21, 22]);
    // An entry inside one block.
    let mut buffer: Vec<u8> = Vec::new();
    assert_eq!(take_from_block(&mut buffer, &[1, 2, 3, 4, 5, 6], true, 1, 3), Ok(3));
    assert_eq!(buffer, vec![2, 3, 4]);
    // A first block that ends where the entry starts holds nothing of it.
    let mut buffer: Vec<u8> = Vec::new();
    assert_eq!(take_from_block(&mut buffer, &[1, 2], true, 2, 3), Ok(0));
    assert!(buffer.is_empty());
    // A first block that ends before the entry starts is refused.
    let mut buffer: Vec<u8> = vec![];
    assert_eq!(take_from_block(&mut buffer, &[1, 2], true, 3, 3), Err(PkgError::TableOutOfBounds));
    assert!(buffer.is_empty());
    // In a later block the offset plays no part.
    let mut buffer: Vec<u8> = vec![7];
    assert_eq!(take_from_block(&mut buffer, &[1, 2], false, 3, 3), Ok(2));
    assert_eq!(buffer, vec![7, 1, 2]);
}
