//! The reader of an archive of Witch Queen.

use std::sync::Arc;
use vstd::prelude::*;
use crate::bytes::Endian;
use crate::crypto::KeyTable;
use crate::d2_shared::{
    spec_path_base, BlockHeader, CommonPackageData, EntryHeader, PackageCommonD2, PackageNamedTagEntry,
};
use crate::d2_witchqueen::structs::PackageHeader;
use crate::error::PkgError;
use crate::oodle::{CodecOutcome, OodleVersion};
use crate::package::{Package, PackageLanguage, PackagePlatform, UEntryHeader, UHashTableEntry};
use crate::table::{read_table, spec_is_table, spec_table_in_bounds};
use crate::version::DestinyVersion;

verus! {

/// An open archive of Witch Queen.
pub struct PackageD2WitchQueen {
    pub common: PackageCommonD2,
    pub header: PackageHeader,
}

impl PackageD2WitchQueen {
    /// Whether the tables that the header `h` points to lie inside `s`.
    pub open spec fn spec_tables_readable(s: Seq<u8>, h: PackageHeader) -> bool {
        &&& spec_table_in_bounds::<EntryHeader>(s, h.entry_table_offset as int, h.entry_table_size as int)
        &&& spec_table_in_bounds::<BlockHeader>(s, h.block_table_offset as int, h.block_table_size as int)
    }

    /// Whether `self` is the reader that opening the image `s` under `path`
    /// gives. The archive belongs to group zero.
    pub open spec fn opened_from(&self, s: Seq<u8>, path: Seq<char>, keys: Map<u64, crate::crypto::GroupKey>) -> bool {
        let e = Endian::Little;
        let h = self.header;
        &&& h == PackageHeader::spec_decode(s)
        &&& self.common.wf()
        &&& self.common.version == DestinyVersion::Destiny2WitchQueen
        &&& self.common.pkg_id == h.pkg_id
        &&& self.common.patch_id == h.patch_id
        &&& self.common.language == PackageLanguage::Neutral
        &&& spec_is_table(self.common.entries@, s, h.entry_table_offset as int, h.entry_table_size as int, e)
        &&& self.common.entries_unified@.len() == h.entry_table_size
        &&& spec_is_table(self.common.blocks@, s, h.block_table_offset as int, h.block_table_size as int, e)
        &&& self.common.wide_hashes@.len() == 0
        &&& self.common.file_handles@ == crate::block::spec_one_file(h.patch_id, s)
        &&& self.common.path_base@ == spec_path_base(path)
        &&& self.common.block_cache@.len() == 0
        &&& crate::d2_shared::spec_keys_for(
            self.common.gcm,
            h.pkg_id,
            DestinyVersion::Destiny2WitchQueen,
            0,
            keys,
        )
    }

    /// Opens an archive from the image of its file.
    ///
    /// `HeaderInvalid` when the image does not start with a header of this
    /// generation; else `TableOutOfBounds` when a table that the header
    /// points to reaches outside the image.
    pub fn from_reader(path: &str, reader: Vec<u8>, keys: &KeyTable) -> (r: Result<PackageD2WitchQueen, PkgError>)
        ensures
            match r {
                Ok(p) => PackageHeader::spec_valid(reader@) && Self::spec_tables_readable(
                    reader@,
                    PackageHeader::spec_decode(reader@),
                ) && p.opened_from(reader@, path@, keys@),
                Err(e) => if !PackageHeader::spec_valid(reader@) {
                    e == PkgError::HeaderInvalid
                } else {
                    e == PkgError::TableOutOfBounds && !Self::spec_tables_readable(
                        reader@,
                        PackageHeader::spec_decode(reader@),
                    )
                },
            },
    {
        let e = Endian::Little;
        let data: &[u8] = reader.as_slice();
        let header: PackageHeader = match PackageHeader::parse(data) {
            Ok(h) => h,
            Err(err) => {
                return Err(err);
            },
        };
        let entries: Vec<EntryHeader> = match read_table::<EntryHeader>(
            data,
            header.entry_table_offset as usize,
            header.entry_table_size as usize,
            e,
        ) {
            Ok(t) => t,
            Err(err) => {
                return Err(err);
            },
        };
        let blocks: Vec<BlockHeader> = match read_table::<BlockHeader>(
            data,
            header.block_table_offset as usize,
            header.block_table_size as usize,
            e,
        ) {
            Ok(t) => t,
            Err(err) => {
                return Err(err);
            },
        };
        let common = match PackageCommonD2::new(
            reader,
            DestinyVersion::Destiny2WitchQueen,
            path,
            CommonPackageData {
                pkg_id: header.pkg_id,
                patch_id: header.patch_id,
                group_id: 0,
                entries,
                blocks,
                wide_hashes: Vec::new(),
                language: PackageLanguage::Neutral,
            },
            keys,
        ) {
            Ok(c) => c,
            Err(err) => {
                return Err(err);
            },
        };
        Ok(PackageD2WitchQueen { common, header })
    }

    /// The bytes of a block as its file stores them.
    pub fn get_block_raw(&self, block_index: usize) -> (r: Result<Vec<u8>, PkgError>)
        requires
            self.common.wf(),
        ensures
            crate::block::spec_result_view(r) == if block_index < self.common.blocks@.len() {
                crate::block::spec_stored(
                    self.common.file_handles@,
                    self.common.blocks@[block_index as int].patch_id,
                    self.common.blocks@[block_index as int].offset,
                    self.common.blocks@[block_index as int].size,
                )
            } else {
                Err(PkgError::TableOutOfBounds)
            },
    {
        self.common.get_block_raw(block_index)
    }

    /// Reads, opens and decompresses the block with the given index.
    pub fn read_block<C>(&self, block_index: usize, codec: &C) -> (r: Result<Vec<u8>, PkgError>) where
        C: Fn(OodleVersion, &Vec<u8>) -> CodecOutcome,

        requires
            self.common.wf(),
            forall|v: OodleVersion, input: &Vec<u8>| (*codec).requires((v, input)),
        ensures
            self.common.spec_block_read(block_index, codec, r),
            r matches Ok(v) ==> self.common.spec_is_block(block_index, v@),
    {
        self.common.read_block(block_index, codec)
    }
}

impl Package for PackageD2WitchQueen {
    open spec fn spec_block_request(
        before: Self,
        after: Self,
        index: usize,
        gave: spec_fn(OodleVersion, Seq<u8>, Result<Seq<u8>, PkgError>) -> bool,
        r: Result<Seq<u8>, PkgError>,
    ) -> bool {
        crate::d2_shared::PackageCommonD2::spec_block_request(before.common, after.common, index, gave, r)
    }

    open spec fn wf(&self) -> bool {
        self.common.wf()
    }

    open spec fn spec_entries(&self) -> Seq<UEntryHeader> {
        self.common.entries_unified@
    }

    open spec fn spec_pkg_id(&self) -> u16 {
        self.common.pkg_id
    }

    open spec fn spec_is_block(&self, index: usize, data: Seq<u8>) -> bool {
        self.common.spec_is_block(index, data)
    }

    open spec fn spec_patch_id(&self) -> u16 {
        self.common.patch_id
    }

    open spec fn spec_language(&self) -> PackageLanguage {
        self.common.language
    }

    open spec fn spec_platform(&self) -> PackagePlatform {
        PackagePlatform::Win64
    }

    open spec fn spec_endianness(&self) -> Endian {
        Endian::Little
    }

    open spec fn spec_hash64_table(&self) -> Seq<UHashTableEntry> {
        Seq::empty()
    }

    open spec fn spec_named_tags(&self) -> Seq<PackageNamedTagEntry> {
        Seq::empty()
    }

    fn endianness(&self) -> (e: Endian) {
        Endian::Little
    }

    fn pkg_id(&self) -> (id: u16) {
        self.common.pkg_id
    }

    fn patch_id(&self) -> (id: u16) {
        self.common.patch_id
    }

    fn language(&self) -> (l: PackageLanguage) {
        self.common.language
    }

    fn platform(&self) -> (p: PackagePlatform) {
        PackagePlatform::Win64
    }

    fn hash64_table(&self) -> (r: Vec<UHashTableEntry>) {
        Vec::new()
    }

    fn named_tags(&self) -> (r: Vec<PackageNamedTagEntry>) {
        Vec::new()
    }

    fn entries(&self) -> (r: &[UEntryHeader]) {
        self.common.entries_unified.as_slice()
    }

    fn entry(&self, index: usize) -> (r: Option<UEntryHeader>) {
        if index < self.common.entries_unified.len() {
            Some(self.common.entries_unified[index])
        } else {
            None
        }
    }

    fn get_block<C>(&mut self, index: usize, codec: &C) -> (r: Result<Arc<Vec<u8>>, PkgError>) where
        C: Fn(OodleVersion, &Vec<u8>) -> CodecOutcome,

        ensures
            crate::d2_shared::PackageCommonD2::spec_block_request(
                old(self).common,
                final(self).common,
                index,
                crate::block::spec_codec(codec),
                crate::block::spec_shared_view(r),
            ),
    {
        self.common.get_block(index, codec)
    }
}

} // verus!
