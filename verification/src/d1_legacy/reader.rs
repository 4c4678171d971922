//! The reader of an archive of The Taken King, made from tables that have
//! been decoded elsewhere.

use std::sync::Arc;
use vstd::prelude::*;
use crate::block::BlockPlan;
use crate::bytes::Endian;
use crate::d1_roi::structs::{spec_unified_named_tags, unified_named_tags, BlockHeader, NamedTagEntryD1};
use crate::d1_shared::{CommonPackageDataD1, PackageCommonD1};
use crate::d2_shared::{clone_named_tags, spec_path_base, PackageNamedTagEntry};
use crate::error::PkgError;
use crate::oodle::{CodecOutcome, OodleVersion};
use crate::package::{Package, PackageLanguage, PackagePlatform, UEntryHeader, UHashTableEntry};

verus! {

/// An open archive of The Taken King.
pub struct PackageD1Legacy {
    pub common: PackageCommonD1,
    pub blocks: Vec<BlockHeader>,
}

/// The flag of a compressed block in this generation.
pub const COMPRESSED: u16 = 0x100;

/// Where a block of this generation lies and whether it is compressed.
pub open spec fn spec_plan(bh: BlockHeader) -> BlockPlan {
    BlockPlan {
        patch_id: bh.patch_id,
        offset: bh.offset,
        size: bh.size,
        encrypted: false,
        compressed: bh.flags & COMPRESSED != 0,
        flags: bh.flags,
        gcm_tag: vstd::array::spec_array_fill_for_copy_type::<u8, 16>(0u8),
    }
}

/// Where each block lies and whether it is compressed.
pub open spec fn spec_plans(blocks: Seq<BlockHeader>) -> Seq<BlockPlan> {
    Seq::new(blocks.len(), |i: int| spec_plan(blocks[i]))
}

fn plans(blocks: &Vec<BlockHeader>) -> (r: Vec<BlockPlan>)
    ensures
        r@ == spec_plans(blocks@),
{
    let mut out: Vec<BlockPlan> = Vec::new();
    let mut i: usize = 0;
    while i < blocks.len()
        invariant
            i <= blocks@.len(),
            out@ == spec_plans(blocks@.subrange(0, i as int)),
        decreases blocks.len() - i,
    {
        let bh: &BlockHeader = &blocks[i];
        out.push(
            BlockPlan {
                patch_id: bh.patch_id,
                offset: bh.offset,
                size: bh.size,
                encrypted: false,
                compressed: (bh.flags & COMPRESSED) != 0,
                flags: bh.flags,
                gcm_tag: [0u8; 16],
            },
        );
        proof {
            assert(out@ =~= spec_plans(blocks@.subrange(0, i + 1)));
        }
        i = i + 1;
    }
    proof {
        assert(blocks@.subrange(0, blocks@.len() as int) =~= blocks@);
    }
    out
}

/// The fields of a header that the reader needs.
pub struct LegacyHeader {
    pub pkg_id: u16,
    pub patch_id: u16,
    pub language: PackageLanguage,
    pub platform: PackagePlatform,
}

impl PackageD1Legacy {
    /// The reader of an archive with the given image and path, whose header
    /// fields, entries, blocks and named tags are the given ones.
    pub fn from_tables(
        path: &str,
        reader: Vec<u8>,
        header: LegacyHeader,
        entries: Vec<UEntryHeader>,
        blocks: Vec<BlockHeader>,
        named_tags: Vec<NamedTagEntryD1>,
    ) -> (p: PackageD1Legacy)
        ensures
            p.common.wf(),
            p.common.pkg_id == header.pkg_id,
            p.common.patch_id == header.patch_id,
            p.common.language == header.language,
            p.common.platform == header.platform,
            p.common.entries_unified == entries,
            p.blocks == blocks,
            p.common.plans@ == spec_plans(blocks@),
            spec_unified_named_tags(named_tags@, p.common.named_tags@),
            p.common.file_handles@ == crate::block::spec_one_file(header.patch_id, reader@),
            p.common.path_base@ == spec_path_base(path@),
            p.common.block_cache@.len() == 0,
    {
        let common = PackageCommonD1::new(
            reader,
            path,
            CommonPackageDataD1 {
                pkg_id: header.pkg_id,
                patch_id: header.patch_id,
                language: header.language,
                platform: header.platform,
                entries,
                plans: plans(&blocks),
                named_tags: unified_named_tags(&named_tags),
            },
        );
        PackageD1Legacy { common, blocks }
    }

    /// The bytes of a block as its file stores them.
    pub fn get_block_raw(&self, block_index: usize) -> (r: Result<Vec<u8>, PkgError>)
        ensures
            crate::block::spec_result_view(r) == if block_index < self.common.plans@.len() {
                crate::block::spec_stored(
                    self.common.file_handles@,
                    self.common.plans@[block_index as int].patch_id,
                    self.common.plans@[block_index as int].offset,
                    self.common.plans@[block_index as int].size,
                )
            } else {
                Err(PkgError::TableOutOfBounds)
            },
    {
        self.common.get_block_raw(block_index)
    }

    /// Reads the block with the given index and decompresses it when it is
    /// compressed.
    pub fn read_block<C>(&self, block_index: usize, codec: &C) -> (r: Result<Vec<u8>, PkgError>) where
        C: Fn(OodleVersion, &Vec<u8>) -> CodecOutcome,

        requires
            forall|v: OodleVersion, input: &Vec<u8>| (*codec).requires((v, input)),
        ensures
            self.common.spec_block_read(block_index, codec, r),
            r matches Ok(v) ==> self.common.spec_is_block(block_index, v@),
    {
        self.common.read_block(block_index, codec)
    }
}

impl Package for PackageD1Legacy {
    open spec fn spec_block_request(
        before: Self,
        after: Self,
        index: usize,
        gave: spec_fn(OodleVersion, Seq<u8>, Result<Seq<u8>, PkgError>) -> bool,
        r: Result<Seq<u8>, PkgError>,
    ) -> bool {
        crate::d1_shared::PackageCommonD1::spec_block_request(before.common, after.common, index, gave, r)
    }

    open spec fn wf(&self) -> bool {
        self.common.wf()
    }

    open spec fn spec_entries(&self) -> Seq<UEntryHeader> {
        self.common.entries_unified@
    }

    open spec fn spec_pkg_id(&self) -> u16 {
        self.common.pkg_id
    }

    open spec fn spec_is_block(&self, index: usize, data: Seq<u8>) -> bool {
        self.common.spec_is_block(index, data)
    }

    open spec fn spec_patch_id(&self) -> u16 {
        self.common.patch_id
    }

    open spec fn spec_language(&self) -> PackageLanguage {
        self.common.language
    }

    open spec fn spec_platform(&self) -> PackagePlatform {
        self.common.platform
    }

    open spec fn spec_endianness(&self) -> Endian {
        Endian::Big
    }

    open spec fn spec_hash64_table(&self) -> Seq<UHashTableEntry> {
        Seq::empty()
    }

    open spec fn spec_named_tags(&self) -> Seq<PackageNamedTagEntry> {
        self.common.named_tags@
    }

    fn endianness(&self) -> (e: Endian) {
        Endian::Big
    }

    fn pkg_id(&self) -> (id: u16) {
        self.common.pkg_id
    }

    fn patch_id(&self) -> (id: u16) {
        self.common.patch_id
    }

    fn language(&self) -> (l: PackageLanguage) {
        self.common.language
    }

    fn platform(&self) -> (p: PackagePlatform) {
        self.common.platform
    }

    fn hash64_table(&self) -> (r: Vec<UHashTableEntry>) {
        Vec::new()
    }

    fn named_tags(&self) -> (r: Vec<PackageNamedTagEntry>) {
        clone_named_tags(&self.common.named_tags)
    }

    fn entries(&self) -> (r: &[UEntryHeader]) {
        self.common.entries_unified.as_slice()
    }

    fn entry(&self, index: usize) -> (r: Option<UEntryHeader>) {
        if index < self.common.entries_unified.len() {
            Some(self.common.entries_unified[index])
        } else {
            None
        }
    }

    fn get_block<C>(&mut self, index: usize, codec: &C) -> (r: Result<Arc<Vec<u8>>, PkgError>) where
        C: Fn(OodleVersion, &Vec<u8>) -> CodecOutcome,

        ensures
            crate::d1_shared::PackageCommonD1::spec_block_request(
                old(self).common,
                final(self).common,
                index,
                crate::block::spec_codec(codec),
                crate::block::spec_shared_view(r),
            ),
    {
        self.common.get_block(index, codec)
    }
}

} // verus!
