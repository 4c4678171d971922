//! The reader of an archive of the internal alpha.

use std::sync::Arc;
use vstd::prelude::*;
use crate::block::BlockPlan;
use crate::bytes::{spec_u32, Endian};
use crate::d1_internal_alpha::structs::{BlockHeader, EntryHeader, EntryHeader2, PackageHeader};
use crate::d1_roi::structs::{spec_unified_named_tags, unified_named_tags, NamedTagEntryD1};
use crate::d1_shared::{CommonPackageDataD1, PackageCommonD1};
use crate::d2_shared::{clone_named_tags, spec_path_base, PackageNamedTagEntry};
use crate::error::PkgError;
use crate::oodle::{CodecOutcome, OodleVersion};
use crate::package::{Package, PackageLanguage, PackagePlatform, UEntryHeader, UHashTableEntry};
use crate::table::{read_table, spec_is_table, spec_table_in_bounds};

verus! {

/// An open archive of the internal alpha.
pub struct PackageD1InternalAlpha {
    pub common: PackageCommonD1,
    pub header: PackageHeader,
    pub entries: Vec<EntryHeader>,
    pub entries2: Vec<EntryHeader2>,
    pub blocks: Vec<BlockHeader>,
}

/// The entries in the shape that all generations share.
pub open spec fn spec_unified_entries(entries: Seq<EntryHeader>) -> Seq<UEntryHeader> {
    Seq::new(entries.len(), |i: int| entries[i].spec_unified())
}

/// Where each block lies and whether it is compressed.
pub open spec fn spec_plans(blocks: Seq<BlockHeader>) -> Seq<BlockPlan> {
    Seq::new(blocks.len(), |i: int| blocks[i].spec_plan())
}

fn unified_entries(entries: &Vec<EntryHeader>) -> (r: Vec<UEntryHeader>)
    ensures
        r@ == spec_unified_entries(entries@),
{
    let mut out: Vec<UEntryHeader> = Vec::new();
    let mut i: usize = 0;
    while i < entries.len()
        invariant
            i <= entries@.len(),
            out@ == spec_unified_entries(entries@.subrange(0, i as int)),
        decreases entries.len() - i,
    {
        out.push(entries[i].unified());
        proof {
            assert(out@ =~= spec_unified_entries(entries@.subrange(0, i + 1)));
        }
        i = i + 1;
    }
    proof {
        assert(entries@.subrange(0, entries@.len() as int) =~= entries@);
    }
    out
}

fn plans(blocks: &Vec<BlockHeader>) -> (r: Vec<BlockPlan>)
    ensures
        r@ == spec_plans(blocks@),
{
    let mut out: Vec<BlockPlan> = Vec::new();
    let mut i: usize = 0;
    while i < blocks.len()
        invariant
            i <= blocks@.len(),
            out@ == spec_plans(blocks@.subrange(0, i as int)),
        decreases blocks.len() - i,
    {
        out.push(blocks[i].plan());
        proof {
            assert(out@ =~= spec_plans(blocks@.subrange(0, i + 1)));
        }
        i = i + 1;
    }
    proof {
        assert(blocks@.subrange(0, blocks@.len() as int) =~= blocks@);
    }
    out
}

impl PackageD1InternalAlpha {
    /// Whether the tables that the header of `s` points to lie inside `s`.
    pub open spec fn spec_tables_readable(s: Seq<u8>) -> bool {
        let e = Endian::Big;
        &&& spec_table_in_bounds::<EntryHeader>(s, spec_u32(s, 0x104, e) as int, spec_u32(s, 0x100, e) as int)
        &&& spec_table_in_bounds::<EntryHeader2>(s, spec_u32(s, 0xa8, e) as int, spec_u32(s, 0xa4, e) as int)
        &&& spec_table_in_bounds::<BlockHeader>(s, spec_u32(s, 0x120, e) as int, spec_u32(s, 0x11c, e) as int)
        &&& spec_table_in_bounds::<NamedTagEntryD1>(s, spec_u32(s, 0xb0, e) as int, spec_u32(s, 0xac, e) as int)
    }

    /// Whether `self` is the reader that opening the image `s` under `path`
    /// gives. The archive's patch id counts as zero.
    pub open spec fn opened_from(&self, s: Seq<u8>, path: Seq<char>) -> bool {
        let e = Endian::Big;
        let h = self.header;
        &&& h.decodes(s)
        &&& self.common.wf()
        &&& self.common.pkg_id == h.pkg_id
        &&& self.common.patch_id == 0
        &&& self.common.language == h.language
        &&& self.common.platform == h.platform
        &&& spec_is_table(self.entries@, s, h.entry_table_offset as int, h.entry_table_size as int, e)
        &&& spec_is_table(self.entries2@, s, h.entry2_table_offset as int, h.entry2_table_size as int, e)
        &&& self.common.entries_unified@ == spec_unified_entries(self.entries@)
        &&& spec_is_table(self.blocks@, s, h.block_table_offset as int, h.block_table_size as int, e)
        &&& self.common.plans@ == spec_plans(self.blocks@)
        &&& exists|stored: Seq<NamedTagEntryD1>| #[trigger]
            spec_is_table(stored, s, h.named_tag_table_offset as int, h.named_tag_table_size as int, e)
                && spec_unified_named_tags(stored, self.common.named_tags@)
        &&& self.common.file_handles@ == crate::block::spec_one_file(0u16, s)
        &&& self.common.path_base@ == spec_path_base(path)
        &&& self.common.block_cache@.len() == 0
    }

    /// Opens an archive from the image of its file.
    ///
    /// `HeaderInvalid` when the image does not start with a header of this
    /// generation; else `TableOutOfBounds` when a table that the header
    /// points to reaches outside the image.
    pub fn from_reader(path: &str, reader: Vec<u8>) -> (r: Result<PackageD1InternalAlpha, PkgError>)
        ensures
            match r {
                Ok(p) => PackageHeader::spec_valid(reader@) && Self::spec_tables_readable(reader@)
                    && p.opened_from(reader@, path@),
                Err(e) => if !PackageHeader::spec_valid(reader@) {
                    e == PkgError::HeaderInvalid
                } else {
                    e == PkgError::TableOutOfBounds && !Self::spec_tables_readable(reader@)
                },
            },
    {
        let e = Endian::Big;
        let data: &[u8] = reader.as_slice();
        let header: PackageHeader = match PackageHeader::parse(data) {
            Ok(h) => h,
            Err(err) => {
                return Err(err);
            },
        };
        let entries: Vec<EntryHeader> = match read_table::<EntryHeader>(
            data,
            header.entry_table_offset as usize,
            header.entry_table_size as usize,
            e,
        ) {
            Ok(t) => t,
            Err(err) => {
                return Err(err);
            },
        };
        let entries2: Vec<EntryHeader2> = match read_table::<EntryHeader2>(
            data,
            header.entry2_table_offset as usize,
            header.entry2_table_size as usize,
            e,
        ) {
            Ok(t) => t,
            Err(err) => {
                return Err(err);
            },
        };
        let blocks: Vec<BlockHeader> = match read_table::<BlockHeader>(
            data,
            header.block_table_offset as usize,
            header.block_table_size as usize,
            e,
        ) {
            Ok(t) => t,
            Err(err) => {
                return Err(err);
            },
        };
        let stored: Vec<NamedTagEntryD1> = match read_table::<NamedTagEntryD1>(
            data,
            header.named_tag_table_offset as usize,
            header.named_tag_table_size as usize,
            e,
        ) {
            Ok(t) => t,
            Err(err) => {
                return Err(err);
            },
        };
        let named_tags: Vec<PackageNamedTagEntry> = unified_named_tags(&stored);
        let common = PackageCommonD1::new(
            reader,
            path,
            CommonPackageDataD1 {
                pkg_id: header.pkg_id,
                patch_id: 0,
                language: header.language,
                platform: header.platform,
                entries: unified_entries(&entries),
                plans: plans(&blocks),
                named_tags,
            },
        );
        let p = PackageD1InternalAlpha { common, header, entries, entries2, blocks };
        proof {
            assert(spec_is_table(
                stored@,
                reader@,
                header.named_tag_table_offset as int,
                header.named_tag_table_size as int,
                e,
            ));
        }
        Ok(p)
    }

    /// The bytes of a block as the archive's file stores them.
    pub fn get_block_raw(&self, block_index: usize) -> (r: Result<Vec<u8>, PkgError>)
        ensures
            crate::block::spec_result_view(r) == if block_index < self.common.plans@.len() {
                crate::block::spec_stored(
                    self.common.file_handles@,
                    self.common.plans@[block_index as int].patch_id,
                    self.common.plans@[block_index as int].offset,
                    self.common.plans@[block_index as int].size,
                )
            } else {
                Err(PkgError::TableOutOfBounds)
            },
    {
        self.common.get_block_raw(block_index)
    }

    /// Reads the block with the given index and decompresses it when it is
    /// compressed.
    pub fn read_block<C>(&self, block_index: usize, codec: &C) -> (r: Result<Vec<u8>, PkgError>) where
        C: Fn(OodleVersion, &Vec<u8>) -> CodecOutcome,

        requires
            forall|v: OodleVersion, input: &Vec<u8>| (*codec).requires((v, input)),
        ensures
            self.common.spec_block_read(block_index, codec, r),
            r matches Ok(v) ==> self.common.spec_is_block(block_index, v@),
    {
        self.common.read_block(block_index, codec)
    }
}

impl Package for PackageD1InternalAlpha {
    open spec fn spec_block_request(
        before: Self,
        after: Self,
        index: usize,
        gave: spec_fn(OodleVersion, Seq<u8>, Result<Seq<u8>, PkgError>) -> bool,
        r: Result<Seq<u8>, PkgError>,
    ) -> bool {
        crate::d1_shared::PackageCommonD1::spec_block_request(before.common, after.common, index, gave, r)
    }

    open spec fn wf(&self) -> bool {
        self.common.wf()
    }

    open spec fn spec_entries(&self) -> Seq<UEntryHeader> {
        self.common.entries_unified@
    }

    open spec fn spec_pkg_id(&self) -> u16 {
        self.common.pkg_id
    }

    open spec fn spec_is_block(&self, index: usize, data: Seq<u8>) -> bool {
        self.common.spec_is_block(index, data)
    }

    open spec fn spec_patch_id(&self) -> u16 {
        0
    }

    open spec fn spec_language(&self) -> PackageLanguage {
        self.common.language
    }

    open spec fn spec_platform(&self) -> PackagePlatform {
        self.common.platform
    }

    open spec fn spec_endianness(&self) -> Endian {
        Endian::Big
    }

    open spec fn spec_hash64_table(&self) -> Seq<UHashTableEntry> {
        Seq::empty()
    }

    open spec fn spec_named_tags(&self) -> Seq<PackageNamedTagEntry> {
        self.common.named_tags@
    }

    fn endianness(&self) -> (e: Endian) {
        Endian::Big
    }

    fn pkg_id(&self) -> (id: u16) {
        self.common.pkg_id
    }

    fn patch_id(&self) -> (id: u16) {
        0
    }

    fn language(&self) -> (l: PackageLanguage) {
        self.common.language
    }

    fn platform(&self) -> (p: PackagePlatform) {
        self.common.platform
    }

    fn hash64_table(&self) -> (r: Vec<UHashTableEntry>) {
        Vec::new()
    }

    fn named_tags(&self) -> (r: Vec<PackageNamedTagEntry>) {
        clone_named_tags(&self.common.named_tags)
    }

    fn entries(&self) -> (r: &[UEntryHeader]) {
        self.common.entries_unified.as_slice()
    }

    fn entry(&self, index: usize) -> (r: Option<UEntryHeader>) {
        if index < self.common.entries_unified.len() {
            Some(self.common.entries_unified[index])
        } else {
            None
        }
    }

    fn get_block<C>(&mut self, index: usize, codec: &C) -> (r: Result<Arc<Vec<u8>>, PkgError>) where
        C: Fn(OodleVersion, &Vec<u8>) -> CodecOutcome,

        ensures
            crate::d1_shared::PackageCommonD1::spec_block_request(
                old(self).common,
                final(self).common,
                index,
                crate::block::spec_codec(codec),
                crate::block::spec_shared_view(r),
            ),
    {
        self.common.get_block(index, codec)
    }
}

} // verus!
