//! The records that the generations of the second title share, and the
//! reader core behind their archives.

use std::sync::Arc;
use vstd::prelude::*;
use vstd::string::StringExecFns;
use crate::block::{
    lemma_block_stays, spec_codec_gave, spec_holds_blocks, spec_plain, spec_result_view, BlockPlan, FileHandles,
};
use crate::block_cache::BlockCache;
use crate::crypto::{KeyTable, PkgGcmState, FLAG_COMPRESSED, FLAG_ENCRYPTED};
use crate::oodle::{CodecOutcome, OodleVersion};

pub use crate::oodle::BLOCK_SIZE;
use crate::package::PackageLanguage;
use crate::version::{DestinyVersion, GameVersion};
use crate::bytes::{
    follow_table_ref, spec_table_ref, read_array, read_c_string, read_u32, read_u64, spec_c_string, spec_in_bounds, spec_u32, spec_u64, Endian,
};
use crate::error::PkgError;
use crate::package::{UEntryHeader, UHashTableEntry};
use crate::table::Record;
use crate::tag::TagHash;
use crate::text::{decimal, last_index_of, spec_decimal, spec_last_index_of, spec_utf8_lossy, utf8_lossy};

verus! {

/// An entry as the archives of the second title store it: the reference,
/// then the type word, then the block word.
#[derive(Clone, Copy, Debug, PartialEq, Eq, Structural)]
pub struct EntryHeader {
    pub reference: u32,
    /// The type word as stored.
    pub type_info: u32,
    /// Bits 9 to 15 of the type word.
    pub file_type: u8,
    /// Bits 6 to 8 of the type word.
    pub file_subtype: u8,
    /// The block word as stored.
    pub block_info: u64,
    /// Bits 0 to 13 of the block word.
    pub starting_block: u32,
    /// Bits 14 to 27 of the block word, times sixteen.
    pub starting_block_offset: u32,
    /// Bits 28 to 59 of the block word.
    pub file_size: u32,
}

impl EntryHeader {
    /// The entry whose three words are the given ones.
    pub open spec fn spec_from_words(reference: u32, type_info: u32, block_info: u64) -> EntryHeader {
        EntryHeader {
            reference,
            type_info,
            file_type: ((type_info / 0x200) % 0x80) as u8,
            file_subtype: ((type_info / 0x40) % 0x8) as u8,
            block_info,
            starting_block: (block_info % 0x4000) as u32,
            starting_block_offset: (((block_info / 0x4000) % 0x4000) * 16) as u32,
            file_size: ((block_info / 0x1000_0000) % 0x1_0000_0000) as u32,
        }
    }

    /// The entry stored in the sixteen bytes from `at` on.
    pub open spec fn spec_decode(s: Seq<u8>, at: int, e: Endian) -> EntryHeader {
        Self::spec_from_words(spec_u32(s, at, e), spec_u32(s, at + 4, e), spec_u64(s, at + 8, e))
    }

    /// The entry whose three words are the given ones.
    pub fn from_words(reference: u32, type_info: u32, block_info: u64) -> (r: EntryHeader)
        ensures
            r == Self::spec_from_words(reference, type_info, block_info),
    {
        EntryHeader {
            reference,
            type_info,
            file_type: ((type_info / 0x200) % 0x80) as u8,
            file_subtype: ((type_info / 0x40) % 0x8) as u8,
            block_info,
            starting_block: (block_info % 0x4000) as u32,
            starting_block_offset: (((block_info / 0x4000) % 0x4000) * 16) as u32,
            file_size: ((block_info / 0x1000_0000) % 0x1_0000_0000) as u32,
        }
    }

    /// The entry in the shape that all generations share.
    pub open spec fn spec_unified(self) -> UEntryHeader {
        UEntryHeader {
            reference: self.reference,
            file_type: self.file_type,
            file_subtype: self.file_subtype,
            starting_block: self.starting_block,
            starting_block_offset: self.starting_block_offset,
            file_size: self.file_size,
        }
    }

    /// The entry in the shape that all generations share.
    pub fn unified(&self) -> (u: UEntryHeader)
        ensures
            u == self.spec_unified(),
    {
        UEntryHeader {
            reference: self.reference,
            file_type: self.file_type,
            file_subtype: self.file_subtype,
            starting_block: self.starting_block,
            starting_block_offset: self.starting_block_offset,
            file_size: self.file_size,
        }
    }
}

impl Record for EntryHeader {
    open spec fn spec_size() -> nat {
        16
    }

    open spec fn decodes(&self, s: Seq<u8>, at: int, e: Endian) -> bool {
        *self == Self::spec_decode(s, at, e)
    }

    proof fn decodes_one(a: Self, b: Self, s: Seq<u8>, at: int, e: Endian) {
    }

    fn size() -> (n: usize) {
        16
    }

    fn decode(data: &[u8], at: usize, e: Endian) -> (r: Self) {
        let _len: usize = data.len();
        let reference: u32 = match read_u32(data, at, e) {
            Some(v) => v,
            None => 0,
        };
        let type_info: u32 = match read_u32(data, at + 4, e) {
            Some(v) => v,
            None => 0,
        };
        let block_info: u64 = match read_u64(data, at + 8, e) {
            Some(v) => v,
            None => 0,
        };
        EntryHeader::from_words(reference, type_info, block_info)
    }
}

/// A block as the archives of the second title store it.
#[derive(Clone, Copy, Debug)]
pub struct BlockHeader {
    /// Where the block starts in its file.
    pub offset: u32,
    /// The number of bytes that the block takes in its file.
    pub size: u32,
    /// The patch file that holds the block.
    pub patch_id: u16,
    /// Bit 0: compressed. Bit 1: encrypted. Bit 2: second built-in key.
    /// Bit 3: key registered for the archive's group.
    pub flags: u16,
    pub hash: [u8; 20],
    /// The authentication tag of an encrypted block.
    pub gcm_tag: [u8; 16],
}

impl Record for BlockHeader {
    open spec fn spec_size() -> nat {
        48
    }

    open spec fn decodes(&self, s: Seq<u8>, at: int, e: Endian) -> bool {
        &&& self.offset == spec_u32(s, at, e)
        &&& self.size == spec_u32(s, at + 4, e)
        &&& self.patch_id == crate::bytes::spec_u16(s, at + 8, e)
        &&& self.flags == crate::bytes::spec_u16(s, at + 10, e)
        &&& self.hash@ == s.subrange(at + 12, at + 32)
        &&& self.gcm_tag@ == s.subrange(at + 32, at + 48)
    }

    proof fn decodes_one(a: Self, b: Self, s: Seq<u8>, at: int, e: Endian) {
        assert(a.hash =~= b.hash);
        assert(a.gcm_tag =~= b.gcm_tag);
    }

    fn size() -> (n: usize) {
        48
    }

    fn decode(data: &[u8], at: usize, e: Endian) -> (r: Self) {
        let _len: usize = data.len();
        let offset: u32 = match read_u32(data, at, e) {
            Some(v) => v,
            None => 0,
        };
        let size: u32 = match read_u32(data, at + 4, e) {
            Some(v) => v,
            None => 0,
        };
        let patch_id: u16 = match crate::bytes::read_u16(data, at + 8, e) {
            Some(v) => v,
            None => 0,
        };
        let flags: u16 = match crate::bytes::read_u16(data, at + 10, e) {
            Some(v) => v,
            None => 0,
        };
        let hash: [u8; 20] = match read_array::<20>(data, at + 12) {
            Some(v) => v,
            None => [0u8; 20],
        };
        let gcm_tag: [u8; 16] = match read_array::<16>(data, at + 32) {
            Some(v) => v,
            None => [0u8; 16],
        };
        BlockHeader { offset, size, patch_id, flags, hash, gcm_tag }
    }
}

/// A row of the 64-bit alias table as archives store it.
#[derive(Clone, Copy, Debug, PartialEq, Eq, Structural)]
pub struct HashTableEntry {
    pub hash64: u64,
    pub hash32: TagHash,
    pub reference: TagHash,
}

impl HashTableEntry {
    /// The row stored in the sixteen bytes from `at` on.
    pub open spec fn spec_decode(s: Seq<u8>, at: int, e: Endian) -> HashTableEntry {
        HashTableEntry {
            hash64: spec_u64(s, at, e),
            hash32: TagHash(spec_u32(s, at + 8, e)),
            reference: TagHash(spec_u32(s, at + 12, e)),
        }
    }

    /// The row in the shape that all generations share.
    pub open spec fn spec_unified(self) -> UHashTableEntry {
        UHashTableEntry { hash64: self.hash64, hash32: self.hash32, reference: self.reference }
    }

    /// The row in the shape that all generations share.
    pub fn unified(&self) -> (u: UHashTableEntry)
        ensures
            u == self.spec_unified(),
    {
        UHashTableEntry { hash64: self.hash64, hash32: self.hash32, reference: self.reference }
    }
}

impl Record for HashTableEntry {
    open spec fn spec_size() -> nat {
        16
    }

    open spec fn decodes(&self, s: Seq<u8>, at: int, e: Endian) -> bool {
        *self == Self::spec_decode(s, at, e)
    }

    proof fn decodes_one(a: Self, b: Self, s: Seq<u8>, at: int, e: Endian) {
    }

    fn size() -> (n: usize) {
        16
    }

    fn decode(data: &[u8], at: usize, e: Endian) -> (r: Self) {
        let _len: usize = data.len();
        let hash64: u64 = match read_u64(data, at, e) {
            Some(v) => v,
            None => 0,
        };
        let hash32: u32 = match read_u32(data, at + 8, e) {
            Some(v) => v,
            None => 0,
        };
        let reference: u32 = match read_u32(data, at + 12, e) {
            Some(v) => v,
            None => 0,
        };
        HashTableEntry { hash64, hash32: TagHash(hash32), reference: TagHash(reference) }
    }
}

/// A tag that an archive gives a name to.
#[derive(Debug)]
pub struct PackageNamedTagEntry {
    pub hash: TagHash,
    pub class_hash: u32,
    pub name: String,
}

impl Clone for PackageNamedTagEntry {
    fn clone(&self) -> (r: Self)
        ensures
            r == *self,
    {
        PackageNamedTagEntry { hash: self.hash, class_hash: self.class_hash, name: self.name.clone() }
    }
}

/// The bytes of the name of the named-tag record stored from `at` on: the
/// record holds the tag, the class and, as a 64-bit number, the distance
/// from that number's own place to a zero-terminated name.
pub open spec fn spec_named_tag_name(s: Seq<u8>, at: int, e: Endian) -> Option<Seq<u8>> {
    if spec_in_bounds(s, at, 16) {
        spec_c_string(s, at + 8 + spec_u64(s, at + 8, e))
    } else {
        None
    }
}

impl PackageNamedTagEntry {
    /// The number of bytes that a record takes in the table; the name lies
    /// elsewhere.
    pub const RECORD_SIZE: usize = 16;

    /// Whether `self` is the named tag that the record from `at` on stores.
    pub open spec fn decodes(&self, s: Seq<u8>, at: int, e: Endian) -> bool {
        &&& spec_named_tag_name(s, at, e) matches Some(name)
        &&& self.hash == TagHash(spec_u32(s, at, e))
        &&& self.class_hash == spec_u32(s, at + 4, e)
        &&& self.name@ == spec_utf8_lossy(name)
    }

    /// Reads the named-tag record stored from `at` on, and its name from
    /// where the record points. Nothing when the record or the name reaches
    /// past the end of the image.
    pub fn read(data: &[u8], at: usize, e: Endian) -> (r: Option<PackageNamedTagEntry>)
        ensures
            match r {
                Some(tag) => tag.decodes(data@, at as int, e),
                None => spec_named_tag_name(data@, at as int, e) is None,
            },
    {
        if !crate::bytes::in_bounds(data, at, 16) {
            return None;
        }
        let hash: u32 = match read_u32(data, at, e) {
            Some(v) => v,
            None => 0,
        };
        let class_hash: u32 = match read_u32(data, at + 4, e) {
            Some(v) => v,
            None => 0,
        };
        let name_offset: u64 = match read_u64(data, at + 8, e) {
            Some(v) => v,
            None => 0,
        };
        let origin: u64 = (at + 8) as u64;
        if name_offset > (data.len() as u64) || origin > (data.len() as u64) - name_offset {
            return None;
        }
        let start: usize = (origin + name_offset) as usize;
        match read_c_string(data, start) {
            Some(name) => Some(
                PackageNamedTagEntry { hash: TagHash(hash), class_hash, name: utf8_lossy(name.as_slice()) },
            ),
            None => None,
        }
    }

    /// Whether `tags` holds the `count` named tags whose records are stored
    /// back to back from `offset` on.
    pub open spec fn spec_is_table(
        tags: Seq<PackageNamedTagEntry>,
        s: Seq<u8>,
        offset: int,
        count: int,
        e: Endian,
    ) -> bool {
        &&& tags.len() == count
        &&& forall|i: int|
            0 <= i < count ==> (#[trigger] tags[i]).decodes(s, Self::spec_record_at(offset, i), e)
    }

    /// Where record `i` of a table at `offset` starts.
    pub open spec fn spec_record_at(offset: int, i: int) -> int {
        offset + i * 16
    }

    /// Whether every one of the `count` records from `offset` on, and its
    /// name, can be read.
    pub open spec fn spec_table_readable(s: Seq<u8>, offset: int, count: int, e: Endian) -> bool {
        forall|i: int|
            0 <= i < count ==> spec_named_tag_name(s, #[trigger] Self::spec_record_at(offset, i), e) is Some
    }

    /// Reads `count` named tags. Fails with `TableOutOfBounds` exactly when
    /// one of the records or names reaches past the end of the image.
    pub fn read_table(data: &[u8], offset: usize, count: usize, e: Endian) -> (r: Result<
        Vec<PackageNamedTagEntry>,
        PkgError,
    >)
        ensures
            match r {
                Ok(tags) => Self::spec_is_table(tags@, data@, offset as int, count as int, e)
                    && Self::spec_table_readable(data@, offset as int, count as int, e),
                Err(err) => err == PkgError::TableOutOfBounds && !Self::spec_table_readable(
                    data@,
                    offset as int,
                    count as int,
                    e,
                ),
            },
    {
        let mut tags: Vec<PackageNamedTagEntry> = Vec::new();
        let len: usize = data.len();
        let mut i: usize = 0;
        while i < count
            invariant
                i <= count,
                len == data@.len(),
                Self::spec_is_table(tags@, data@, offset as int, i as int, e),
                Self::spec_table_readable(data@, offset as int, i as int, e),
            decreases count - i,
        {
            if i > (usize::MAX - offset) / 16 {
                proof {
                    assert(spec_named_tag_name(data@, Self::spec_record_at(offset as int, i as int), e) is None);
                }
                return Err(PkgError::TableOutOfBounds);
            }
            let at: usize = offset + i * 16;
            assert(at == Self::spec_record_at(offset as int, i as int));
            match Self::read(data, at, e) {
                Some(tag) => {
                    let ghost before = tags@;
                    tags.push(tag);
                    proof {
                        assert forall|k: int| 0 <= k < i + 1 implies (#[trigger] tags@[k]).decodes(
                            data@,
                            Self::spec_record_at(offset as int, k),
                            e,
                        ) by {
                            if k < i {
                                assert(tags@[k] == before[k]);
                            }
                        }
                        assert forall|k: int| 0 <= k < i + 1 implies spec_named_tag_name(
                            data@,
                            #[trigger] Self::spec_record_at(offset as int, k),
                            e,
                        ) is Some by {
                            if k == i {
                                assert(tags@[k].decodes(data@, Self::spec_record_at(offset as int, k), e));
                            }
                        }
                    }
                },
                None => {
                    return Err(PkgError::TableOutOfBounds);
                },
            }
            i = i + 1;
        }
        Ok(tags)
    }
}

/// What a generation's reader has taken from an archive's header and
/// tables.
pub struct CommonPackageData {
    pub pkg_id: u16,
    pub patch_id: u16,
    pub group_id: u64,
    pub entries: Vec<EntryHeader>,
    pub blocks: Vec<BlockHeader>,
    pub wide_hashes: Vec<HashTableEntry>,
    pub language: PackageLanguage,
}

/// The path of an archive without its last underscore and what follows it;
/// the whole path when it has no underscore.
pub open spec fn spec_path_base(path: Seq<char>) -> Seq<char> {
    match spec_last_index_of(path, '_') {
        Some(i) => path.subrange(0, i),
        None => path,
    }
}

/// The path of the patch file `patch_id` beside an archive with the given
/// path base.
pub open spec fn spec_sibling_path(path_base: Seq<char>, patch_id: u16) -> Seq<char> {
    path_base + "_"@ + spec_decimal(patch_id as nat) + ".pkg"@
}

/// The path base of an archive.
pub fn path_base_of(path: &str) -> (base: String)
    ensures
        base@ == spec_path_base(path@),
{
    match last_index_of(path, '_') {
        Some(i) => {
            proof {
                crate::text::lemma_last_index_of(path@, '_');
            }
            String::from_str(path.substring_char(0, i))
        },
        None => String::from_str(path),
    }
}

/// The path of the patch file `patch_id` beside an archive with the given
/// path base.
pub fn sibling_path(path_base: &str, patch_id: u16) -> (path: String)
    ensures
        path@ == spec_sibling_path(path_base@, patch_id),
{
    let mut path = String::from_str(path_base);
    path.append("_");
    let digits = decimal(patch_id as u64);
    path.append(digits.as_str());
    path.append(".pkg");
    path
}

/// The entries in the shape that all generations share.
pub open spec fn spec_unified_entries(entries: Seq<EntryHeader>) -> Seq<UEntryHeader> {
    Seq::new(entries.len(), |i: int| entries[i].spec_unified())
}

/// Whether `gcm` is the key state of archive `pkg_id` of the given generation
/// and group: the two built-in keys, the nonce base with the archive id
/// folded in and the generation's marker set, and the key that `keys` holds
/// for the group.
pub open spec fn spec_keys_for(
    gcm: PkgGcmState,
    pkg_id: u16,
    version: DestinyVersion,
    group_id: u64,
    keys: Map<u64, crate::crypto::GroupKey>,
) -> bool {
    &&& gcm.nonce() == crate::crypto::spec_shift_nonce(
        crate::version::spec_destiny_nonce_base(),
        pkg_id,
        version.spec_nonce_marker(),
    )
    &&& gcm.key_0() == crate::version::spec_destiny_key_0()
    &&& gcm.key_1() == crate::version::spec_destiny_key_1()
    &&& gcm.key_extra() == if keys.contains_key(group_id) {
        Some(keys[group_id])
    } else {
        None
    }
    &&& gcm.group() == group_id
}

/// Where each block lies and what has to be done to it.
pub open spec fn spec_plans(blocks: Seq<BlockHeader>) -> Seq<BlockPlan> {
    Seq::new(blocks.len(), |i: int| PackageCommonD2::spec_plan(blocks[i]))
}

/// The reader core of the archives of the second title.
pub struct PackageCommonD2 {
    pub version: DestinyVersion,
    pub pkg_id: u16,
    pub patch_id: u16,
    pub language: PackageLanguage,
    pub gcm: PkgGcmState,
    pub entries: Vec<EntryHeader>,
    pub entries_unified: Vec<UEntryHeader>,
    pub blocks: Vec<BlockHeader>,
    /// Where each block lies and what has to be done to it.
    pub plans: Vec<BlockPlan>,
    pub wide_hashes: Vec<HashTableEntry>,
    /// The image of the archive's own file, and those of its patch files
    /// that have been made available.
    pub file_handles: FileHandles,
    pub path_base: String,
    pub block_cache: BlockCache,
}

impl PackageCommonD2 {
    /// Where block `bh` lies and what has to be done to it.
    pub open spec fn spec_plan(bh: BlockHeader) -> BlockPlan {
        BlockPlan {
            patch_id: bh.patch_id,
            offset: bh.offset,
            size: bh.size,
            encrypted: bh.flags & FLAG_ENCRYPTED != 0,
            compressed: bh.flags & FLAG_COMPRESSED != 0,
            flags: bh.flags,
            gcm_tag: bh.gcm_tag,
        }
    }

    /// Whether `data` can be the decoded block `index`.
    pub open spec fn spec_is_block(&self, index: usize, data: Seq<u8>) -> bool {
        crate::block::spec_is_block(self.file_handles@, Some(self.gcm), self.plans@, index, data)
    }

    /// Whether two reader cores agree on everything but the blocks they
    /// keep.
    pub open spec fn spec_same_archive(&self, other: &Self) -> bool {
        &&& self.version == other.version
        &&& self.pkg_id == other.pkg_id
        &&& self.patch_id == other.patch_id
        &&& self.language == other.language
        &&& self.gcm == other.gcm
        &&& self.entries == other.entries
        &&& self.entries_unified == other.entries_unified
        &&& self.blocks == other.blocks
        &&& self.plans == other.plans
        &&& self.wide_hashes == other.wide_hashes
        &&& self.file_handles == other.file_handles
        &&& self.path_base == other.path_base
    }

    /// The unified entries and the plans are the projections of the stored
    /// entries and blocks, and the cache holds decoded blocks of this archive
    /// only.
    pub open spec fn wf(&self) -> bool {
        &&& self.block_cache.wf()
        &&& self.entries_unified@ == spec_unified_entries(self.entries@)
        &&& self.plans@ == spec_plans(self.blocks@)
        &&& spec_holds_blocks(self.block_cache@, self.file_handles@, Some(self.gcm), self.plans@)
    }

    /// The reader core for an archive with the given image, path and tables.
    /// The key registered for the archive's group is taken from `keys` as it
    /// stands now.
    pub fn new(reader: Vec<u8>, version: DestinyVersion, path: &str, data: CommonPackageData, keys: &KeyTable) -> (r:
        Result<PackageCommonD2, PkgError>)
        ensures
            r matches Ok(p) && {
                &&& p.wf()
                &&& p.version == version
                &&& p.pkg_id == data.pkg_id
                &&& p.patch_id == data.patch_id
                &&& p.language == data.language
                &&& p.entries == data.entries
                &&& p.entries_unified@ == spec_unified_entries(data.entries@)
                &&& p.blocks == data.blocks
                &&& p.wide_hashes == data.wide_hashes
                &&& p.file_handles@ == crate::block::spec_one_file(data.patch_id, reader@)
                &&& p.path_base@ == spec_path_base(path@)
                &&& p.block_cache@.len() == 0
                &&& spec_keys_for(p.gcm, data.pkg_id, version, data.group_id, keys@)
            },
    {
        let CommonPackageData { pkg_id, patch_id, group_id, entries, blocks, wide_hashes, language } = data;
        let path_base: String = path_base_of(path);
        let mut entries_unified: Vec<UEntryHeader> = Vec::new();
        let mut i: usize = 0;
        while i < entries.len()
            invariant
                i <= entries@.len(),
                entries_unified@ == spec_unified_entries(entries@.subrange(0, i as int)),
            decreases entries.len() - i,
        {
            entries_unified.push(entries[i].unified());
            proof {
                assert(entries_unified@ =~= spec_unified_entries(entries@.subrange(0, i + 1)));
            }
            i = i + 1;
        }
        let mut plans: Vec<BlockPlan> = Vec::new();
        let mut k: usize = 0;
        while k < blocks.len()
            invariant
                k <= blocks@.len(),
                plans@ == spec_plans(blocks@.subrange(0, k as int)),
            decreases blocks.len() - k,
        {
            plans.push(Self::plan(&blocks[k]));
            proof {
                assert(plans@ =~= spec_plans(blocks@.subrange(0, k + 1)));
            }
            k = k + 1;
        }
        proof {
            assert(entries@.subrange(0, entries@.len() as int) =~= entries@);
            assert(blocks@.subrange(0, blocks@.len() as int) =~= blocks@);
        }
        Ok(
            PackageCommonD2 {
                version,
                pkg_id,
                patch_id,
                language,
                gcm: PkgGcmState::new(pkg_id, GameVersion::Destiny(version), group_id, keys),
                entries,
                entries_unified,
                blocks,
                plans,
                wide_hashes,
                file_handles: FileHandles::new(patch_id, reader),
                path_base,
                block_cache: BlockCache::new(),
            },
        )
    }

    /// Where the block with the given header lies and what has to be done to
    /// it.
    pub fn plan(bh: &BlockHeader) -> (p: BlockPlan)
        ensures
            p == Self::spec_plan(*bh),
    {
        BlockPlan {
            patch_id: bh.patch_id,
            offset: bh.offset,
            size: bh.size,
            encrypted: (bh.flags & FLAG_ENCRYPTED) != 0,
            compressed: (bh.flags & FLAG_COMPRESSED) != 0,
            flags: bh.flags,
            gcm_tag: bh.gcm_tag,
        }
    }

    /// The path of the patch file with the given id.
    pub fn sibling_path(&self, patch_id: u16) -> (path: String)
        ensures
            path@ == spec_sibling_path(self.path_base@, patch_id),
    {
        sibling_path(self.path_base.as_str(), patch_id)
    }

    /// Makes the image of a patch file available for the blocks that lie in
    /// it. When the patch already has an image, that one stays in use.
    pub fn add_patch_file(&mut self, patch_id: u16, data: Vec<u8>)
        requires
            old(self).wf(),
        ensures
            final(self).wf(),
            final(self).file_handles@ == crate::block::spec_file_added(old(self).file_handles@, patch_id, data@),
            final(self).block_cache == old(self).block_cache,
            final(self).entries == old(self).entries,
            final(self).entries_unified == old(self).entries_unified,
            final(self).blocks == old(self).blocks,
            final(self).plans == old(self).plans,
            final(self).wide_hashes == old(self).wide_hashes,
            final(self).gcm == old(self).gcm,
            final(self).pkg_id == old(self).pkg_id,
            final(self).patch_id == old(self).patch_id,
            final(self).version == old(self).version,
            final(self).language == old(self).language,
            final(self).path_base == old(self).path_base,
            forall|i: usize, d: Seq<u8>| old(self).spec_is_block(i, d) ==> final(self).spec_is_block(i, d),
    {
        let ghost files = self.file_handles@;
        self.file_handles.insert(patch_id, data);
        proof {
            assert forall|i: usize, d: Seq<u8>| old(self).spec_is_block(i, d) implies self.spec_is_block(
                i,
                d,
            ) by {
                lemma_block_stays(files, (patch_id, data@), Some(self.gcm), self.plans@, i, d);
            }
            let cache = self.block_cache@;
            assert forall|k: int| 0 <= k < cache.len() implies crate::block::spec_is_block(
                self.file_handles@,
                Some(self.gcm),
                self.plans@,
                (#[trigger] cache[k]).0,
                cache[k].1,
            ) by {
                assert(old(self).spec_is_block(cache[k].0, cache[k].1));
            }
        }
    }

    /// The bytes of a block as its file stores them. `TableOutOfBounds` for
    /// an index past the block table or a block past the end of its file,
    /// `SiblingMissing` while the block's patch file is not available.
    pub fn get_block_raw(&self, block_index: usize) -> (r: Result<Vec<u8>, PkgError>)
        requires
            self.wf(),
        ensures
            spec_result_view(r) == if block_index < self.blocks@.len() {
                crate::block::spec_stored(
                    self.file_handles@,
                    self.blocks@[block_index as int].patch_id,
                    self.blocks@[block_index as int].offset,
                    self.blocks@[block_index as int].size,
                )
            } else {
                Err(PkgError::TableOutOfBounds)
            },
    {
        crate::block::read_raw(&self.file_handles, &self.plans, block_index)
    }

    /// Whether `r` is what reading block `index` comes to: `TableOutOfBounds`
    /// for an index past the block table; the error of reading the stored
    /// bytes or of opening them; what the codec makes of the plain bytes
    /// when the block is compressed; else the plain bytes.
    pub open spec fn spec_block_read<C: Fn(OodleVersion, &Vec<u8>) -> CodecOutcome>(
        &self,
        index: usize,
        codec: &C,
        r: Result<Vec<u8>, PkgError>,
    ) -> bool {
        if index >= self.blocks@.len() {
            r == Err::<Vec<u8>, PkgError>(PkgError::TableOutOfBounds)
        } else {
            match spec_plain(self.file_handles@, Some(self.gcm), Self::spec_plan(self.blocks@[index as int])) {
                Err(e) => r == Err::<Vec<u8>, PkgError>(e),
                Ok(plain) => if self.blocks@[index as int].flags & FLAG_COMPRESSED != 0 {
                    spec_codec_gave(codec, self.version.spec_oodle_version(), plain, spec_result_view(r))
                } else {
                    spec_result_view(r) == Ok::<Seq<u8>, PkgError>(plain)
                },
            }
        }
    }

    /// Reads, opens and decompresses the block with the given index.
    pub fn read_block<C>(&self, block_index: usize, codec: &C) -> (r: Result<Vec<u8>, PkgError>) where
        C: Fn(OodleVersion, &Vec<u8>) -> CodecOutcome,

        requires
            self.wf(),
            forall|v: OodleVersion, input: &Vec<u8>| (*codec).requires((v, input)),
        ensures
            self.spec_block_read(block_index, codec, r),
            r matches Ok(v) ==> self.spec_is_block(block_index, v@),
    {
        crate::block::read_block(
            &self.file_handles,
            Some(&self.gcm),
            &self.plans,
            self.version.oodle_version(),
            block_index,
            codec,
        )
    }

    /// Whether a request for block `index`, put to the reader `before`, can
    /// have left the reader `after` and given `r`: the cache answers or
    /// takes the block that was read, and nothing but the cache changes.
    pub open spec fn spec_block_request(
        before: Self,
        after: Self,
        index: usize,
        gave: spec_fn(OodleVersion, Seq<u8>, Result<Seq<u8>, PkgError>) -> bool,
        r: Result<Seq<u8>, PkgError>,
    ) -> bool {
        &&& after.spec_same_archive(&before)
        &&& after.wf()
        &&& crate::block::spec_block_request(
            before.block_cache@,
            after.block_cache@,
            before.file_handles@,
            Some(before.gcm),
            before.plans@,
            before.version.spec_oodle_version(),
            index,
            gave,
            r,
        )
    }

    /// The decoded block with the given index: from the cache when it holds
    /// the block, else read, opened and decompressed, and then kept in the
    /// cache.
    pub fn get_block<C>(&mut self, block_index: usize, codec: &C) -> (r: Result<Arc<Vec<u8>>, PkgError>) where
        C: Fn(OodleVersion, &Vec<u8>) -> CodecOutcome,

        requires
            old(self).wf(),
            forall|v: OodleVersion, input: &Vec<u8>| (*codec).requires((v, input)),
        ensures
            final(self).wf(),
            Self::spec_block_request(
                *old(self),
                *final(self),
                block_index,
                crate::block::spec_codec(codec),
                crate::block::spec_shared_view(r),
            ),
    {
        crate::block::get_block(
            &mut self.block_cache,
            &self.file_handles,
            Some(&self.gcm),
            &self.plans,
            self.version.oodle_version(),
            block_index,
            codec,
        )
    }
}

/// Copies a list of named tags.
pub fn clone_named_tags(tags: &Vec<PackageNamedTagEntry>) -> (r: Vec<PackageNamedTagEntry>)
    ensures
        r@ == tags@,
{
    let mut out: Vec<PackageNamedTagEntry> = Vec::new();
    let mut i: usize = 0;
    while i < tags.len()
        invariant
            i <= tags@.len(),
            out@ == tags@.subrange(0, i as int),
        decreases tags.len() - i,
    {
        out.push(tags[i].clone());
        proof {
            assert(out@ =~= tags@.subrange(0, i + 1));
        }
        i = i + 1;
    }
    proof {
        assert(tags@.subrange(0, tags@.len() as int) =~= tags@);
    }
    out
}

/// Reads the named tags that a table reference at `at` leads to.
/// `TableOutOfBounds` when the reference, one of the records or one of the
/// names reaches outside the image.
pub fn read_named_tags_ref(data: &[u8], at: usize, e: Endian) -> (r: Result<Vec<PackageNamedTagEntry>, PkgError>)
    ensures
        match r {
            Ok(tags) => spec_named_tags_ref_readable(data@, at as int, e) && spec_is_named_tags_ref(
                tags@,
                data@,
                at as int,
                e,
            ),
            Err(err) => err == PkgError::TableOutOfBounds && !spec_named_tags_ref_readable(data@, at as int, e),
        },
{
    let len: usize = data.len();
    match follow_table_ref(data, at, e) {
        None => Err(PkgError::TableOutOfBounds),
        Some((count, place)) => {
            if count > len as u64 {
                proof {
                    let i = len as int;
                    assert(PackageNamedTagEntry::spec_record_at(place as int, i) == place + i * 16);
                    assert(spec_named_tag_name(
                        data@,
                        PackageNamedTagEntry::spec_record_at(place as int, i),
                        e,
                    ) is None);
                }
                return Err(PkgError::TableOutOfBounds);
            }
            PackageNamedTagEntry::read_table(data, place, count as usize, e)
        },
    }
}

/// Whether the named tags behind the table reference at `at` can be read:
/// the reference leads to a place in the image, and every record and name
/// lies inside it. A reference to no records is readable wherever it leads
/// inside the image.
pub open spec fn spec_named_tags_ref_readable(s: Seq<u8>, at: int, e: Endian) -> bool {
    match spec_table_ref(s, at, e) {
        Some((count, place)) => place <= s.len() && PackageNamedTagEntry::spec_table_readable(
            s,
            place,
            count as int,
            e,
        ),
        None => false,
    }
}

/// Whether `tags` holds the named tags behind the table reference at `at`.
pub open spec fn spec_is_named_tags_ref(tags: Seq<PackageNamedTagEntry>, s: Seq<u8>, at: int, e: Endian) -> bool {
    match spec_table_ref(s, at, e) {
        Some((count, place)) => PackageNamedTagEntry::spec_is_table(tags, s, place, count as int, e),
        None => false,
    }
}


} // verus!
