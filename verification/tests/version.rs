use destiny_pkg::bytes::Endian;
use destiny_pkg::crypto::KeyTable;
use destiny_pkg::error::PkgError;
use destiny_pkg::oodle::{decoded_block, OodleVersion, BLOCK_SIZE};
use destiny_pkg::version::{DestinyVersion, GameVersion, MarathonVersion, Version};

fn all_destiny() -> Vec<DestinyVersion> {
    vec![
        DestinyVersion::DestinyInternalAlpha,
        DestinyVersion::DestinyFirstLookAlpha,
        DestinyVersion::DestinyTheTakenKing,
        DestinyVersion::DestinyRiseOfIron,
        DestinyVersion::Destiny2Beta,
        DestinyVersion::Destiny2Forsaken,
        DestinyVersion::Destiny2Shadowkeep,
        DestinyVersion::Destiny2BeyondLight,
        DestinyVersion::Destiny2WitchQueen,
        DestinyVersion::Destiny2Lightfall,
        DestinyVersion::Destiny2TheFinalShape,
    ]
}

#[test]
fn generations_have_short_names() {
    let ids: Vec<String> = all_destiny().iter().map(|v| v.id()).collect();
    assert_eq!(
        ids,
        vec![
            "d1_devalpha", "d1_fla", "d1_ttk", "d1_roi", "d2_beta", "d2_fs", "d2_sk", "d2_bl", "d2_wq", "d2_lf",
            "d2_tfs"
        ]
    );
    assert_eq!(MarathonVersion::MarathonAlpha.id(), "ma_alpha");
    assert_eq!(GameVersion::Destiny(DestinyVersion::DestinyTheTakenKing).id(), "d1_ttk");
    assert_eq!(GameVersion::Marathon(MarathonVersion::MarathonAlpha).id(), "ma_alpha");
}

#[test]
fn generations_have_names() {
    assert_eq!(DestinyVersion::DestinyInternalAlpha.name(), "Destiny X360 Internal Alpha");
    assert_eq!(DestinyVersion::Destiny2BeyondLight.name(), "Destiny 2: Beyond Light");
    assert_eq!(DestinyVersion::Destiny2TheFinalShape.name(), "Destiny 2: The Final Shape");
    assert_eq!(MarathonVersion::MarathonAlpha.name(), "Marathon Closed Alpha");
    assert_eq!(GameVersion::Destiny(DestinyVersion::DestinyRiseOfIron).name(), "Destiny: Rise of Iron");
}

#[test]
fn generations_are_numbered_in_order() {
    let numbers: Vec<u32> = all_destiny().iter().map(|v| v.number()).collect();
    assert_eq!(numbers, vec![10500, 10800, 12000, 12400, 21000, 22000, 22600, 23000, 24000, 27000, 28000]);
}

#[test]
fn generations_belong_to_a_title() {
    for (i, v) in all_destiny().iter().enumerate() {
        assert_eq!(v.is_d1(), i < 4);
        assert_eq!(v.is_d2(), i >= 4);
        assert_eq!(v.is_prebl(), (4..7).contains(&i));
    }
}

#[test]
fn two_generations_are_big_endian() {
    for v in all_destiny() {
        let big = v == DestinyVersion::DestinyInternalAlpha || v == DestinyVersion::DestinyTheTakenKing;
        assert_eq!(v.endian() == Endian::Big, big);
        assert_eq!(GameVersion::Destiny(v).endian() == Endian::Big, big);
    }
    assert_eq!(MarathonVersion::MarathonAlpha.endian(), Endian::Little);
}

#[test]
fn codec_changes_with_beyond_light() {
    for (i, v) in all_destiny().iter().enumerate() {
        let expected = if i < 7 { OodleVersion::V3 } else { OodleVersion::V9 };
        assert_eq!(v.oodle_version(), expected);
        assert_eq!(v.nonce_marker(), if i < 7 { 0xf9 } else { 0xea });
    }
}

#[test]
fn key_material_is_byte_exact() {
    let v = DestinyVersion::Destiny2Shadowkeep;
    assert_eq!(
        v.aes_key_0(),
        [0xD6, 0x2A, 0xB2, 0xC1, 0x0C, 0xC0, 0x1B, 0xC5, 0x35, 0xDB, 0x7B, 0x86, 0x55, 0xC7, 0xDC, 0x3B]
    );
    assert_eq!(
        v.aes_key_1(),
        [0x3A, 0x4A, 0x5D, 0x36, 0x73, 0xA6, 0x60, 0x58, 0x7E, 0x63, 0xE6, 0x76, 0xE4, 0x08, 0x92, 0xB5]
    );
    assert_eq!(v.aes_nonce_base(), [0x84, 0xDF, 0x11, 0xC0, 0xAC, 0xAB, 0xFA, 0x20, 0x33, 0x11, 0x26, 0x99]);
    assert_eq!(GameVersion::Destiny(v).aes_key_0(), v.aes_key_0());
    assert_eq!(GameVersion::Destiny(v).aes_key_1(), v.aes_key_1());
    assert_eq!(GameVersion::Destiny(v).aes_nonce_base(), v.aes_nonce_base());
    assert_eq!(MarathonVersion::MarathonAlpha.aes_key_0(), [0u8; 16]);
    assert_eq!(MarathonVersion::MarathonAlpha.aes_key_1(), [0u8; 16]);
    assert_eq!(MarathonVersion::MarathonAlpha.aes_nonce_base(), [0u8; 12]);
}

#[test]
fn every_generation_can_be_named() {
    let all = GameVersion::value_variants();
    assert_eq!(all.len(), 12);
    for v in all_destiny() {
        assert!(all.contains(&GameVersion::Destiny(v)));
    }
    assert_eq!(all[0], GameVersion::Destiny(DestinyVersion::DestinyInternalAlpha));
    assert_eq!(all[11], GameVersion::Marathon(MarathonVersion::MarathonAlpha));
}

#[test]
fn generations_without_reader_are_unimplemented() {
    let keys = KeyTable::new();
    let r = DestinyVersion::DestinyTheTakenKing.open("ps3_x_0001_0.pkg", vec![0u8; 0x200], &keys);
    assert!(matches!(r, Err(PkgError::Unimplemented)));
    let r = MarathonVersion::MarathonAlpha.open("w64_x_0001_0.pkg", vec![0u8; 0x200], &keys);
    assert!(matches!(r, Err(PkgError::Unimplemented)));
    let r = GameVersion::Marathon(MarathonVersion::MarathonAlpha).open("w64_x_0001_0.pkg", vec![], &keys);
    assert!(matches!(r, Err(PkgError::Unimplemented)));
}

#[test]
fn codec_versions_have_numbers_and_libraries() {
    assert_eq!(OodleVersion::V3.num(), 3);
    assert_eq!(OodleVersion::V9.num(), 9);
    assert_eq!(OodleVersion::V3.library_name(true), "oo2core_3_win64.dll");
    assert_eq!(OodleVersion::V9.library_name(true), "oo2core_9_win64.dll");
    assert_eq!(OodleVersion::V3.library_name(false), "liblinoodle3.so");
    assert_eq!(OodleVersion::V9.library_name(false), "liblinoodle9.so");
}

#[test]
fn codec_answers_become_blocks_or_errors() {
    assert_eq!(decoded_block(None), Err(PkgError::CodecUnavailable));
    assert_eq!(decoded_block(Some((0, vec![0u8; BLOCK_SIZE]))), Err(PkgError::CodecFailed));
    assert_eq!(decoded_block(Some((-1, vec![0u8; BLOCK_SIZE]))), Err(PkgError::CodecFailed));
    assert_eq!(decoded_block(Some((5, vec![0u8; 5]))), Err(PkgError::CodecFailed));
    let block = decoded_block(Some((5, vec![7u8; BLOCK_SIZE]))).unwrap();
    assert_eq!(block.len(), 0x40000);
    assert!(block.iter().all(|b| *b == 7));
}

#[test]
fn errors_have_messages() {
    assert_eq!(PkgError::HeaderInvalid.message(), "package header is invalid");
    assert_eq!(PkgError::SiblingMissing(3).message(), "patch file of the package is missing");
    assert_eq!(PkgError::NotFound.message(), "tag or hash not found");
}
