//! The reader of an archive of the second title from Beyond Light on.

use std::sync::Arc;
use vstd::prelude::*;
use crate::bytes::Endian;
use crate::crypto::{GroupKey, KeyTable};
use crate::d2_beyondlight::structs::PackageHeader;
use crate::d2_prebl::reader::{spec_unified_hashes, unified_hashes};
use crate::d2_shared::{
    clone_named_tags, spec_path_base, BlockHeader, CommonPackageData, EntryHeader, HashTableEntry,
    PackageCommonD2, PackageNamedTagEntry,
};
use crate::error::PkgError;
use crate::oodle::{CodecOutcome, OodleVersion};
use crate::package::{Package, PackageLanguage, PackagePlatform, UEntryHeader, UHashTableEntry};
use crate::table::{read_table, spec_is_table, spec_table_in_bounds};
use crate::version::DestinyVersion;

verus! {

/// An open archive of the second title from Beyond Light on.
pub struct PackageD2BeyondLight {
    pub common: PackageCommonD2,
    pub header: PackageHeader,
    pub named_tags: Vec<PackageNamedTagEntry>,
}

impl PackageD2BeyondLight {
    /// The distance from the header of the named-tag table to its records.
    pub const NAMED_TAG_TABLE_SHIFT: u64 = 0x30;

    /// The distance from the header of the alias table to its rows.
    pub const H64_TABLE_SHIFT: u64 = 0x50;

    /// Whether the tables that the header `h` points to lie inside `s`.
    pub open spec fn spec_tables_readable(s: Seq<u8>, h: PackageHeader) -> bool {
        let e = Endian::Little;
        &&& spec_table_in_bounds::<EntryHeader>(s, h.entry_table_offset as int, h.entry_table_size as int)
        &&& spec_table_in_bounds::<BlockHeader>(s, h.block_table_offset as int, h.block_table_size as int)
        &&& h.named_tag_table_offset + Self::NAMED_TAG_TABLE_SHIFT <= s.len()
        &&& PackageNamedTagEntry::spec_table_readable(
            s,
            h.named_tag_table_offset + Self::NAMED_TAG_TABLE_SHIFT,
            h.named_tag_table_size as int,
            e,
        )
        &&& h.h64_table_size != 0 ==> spec_table_in_bounds::<HashTableEntry>(
            s,
            h.h64_table_offset + Self::H64_TABLE_SHIFT,
            h.h64_table_size as int,
        )
    }

    /// Whether `self` is the reader that opening the image `s` under `path`
    /// gives for the given generation, with the keys `keys` registered.
    pub open spec fn opened_from(
        &self,
        s: Seq<u8>,
        path: Seq<char>,
        version: DestinyVersion,
        keys: Map<u64, GroupKey>,
    ) -> bool {
        let e = Endian::Little;
        let h = self.header;
        &&& h == PackageHeader::spec_decode(s)
        &&& self.common.wf()
        &&& self.common.version == version
        &&& self.common.pkg_id == h.pkg_id
        &&& self.common.patch_id == h.patch_id
        &&& self.common.language == h.language
        &&& spec_is_table(self.common.entries@, s, h.entry_table_offset as int, h.entry_table_size as int, e)
        &&& self.common.entries_unified@.len() == h.entry_table_size
        &&& spec_is_table(self.common.blocks@, s, h.block_table_offset as int, h.block_table_size as int, e)
        &&& self.common.file_handles@ == crate::block::spec_one_file(h.patch_id, s)
        &&& self.common.path_base@ == spec_path_base(path)
        &&& self.common.block_cache@.len() == 0
        &&& crate::d2_shared::spec_keys_for(self.common.gcm, h.pkg_id, version, h.group_id, keys)
        &&& PackageNamedTagEntry::spec_is_table(
            self.named_tags@,
            s,
            h.named_tag_table_offset + Self::NAMED_TAG_TABLE_SHIFT,
            h.named_tag_table_size as int,
            e,
        )
        &&& if h.h64_table_size == 0 {
            self.common.wide_hashes@.len() == 0
        } else {
            spec_is_table(
                self.common.wide_hashes@,
                s,
                h.h64_table_offset + Self::H64_TABLE_SHIFT,
                h.h64_table_size as int,
                e,
            )
        }
    }

    /// Opens an archive of the given generation from the image of its file.
    ///
    /// `HeaderInvalid` when the image does not start with a header of this
    /// generation; else `TableOutOfBounds` when a table that the header
    /// points to reaches outside the image.
    pub fn from_reader(path: &str, reader: Vec<u8>, version: DestinyVersion, keys: &KeyTable) -> (r: Result<
        PackageD2BeyondLight,
        PkgError,
    >)
        ensures
            match r {
                Ok(p) => PackageHeader::spec_valid(reader@) && Self::spec_tables_readable(
                    reader@,
                    PackageHeader::spec_decode(reader@),
                ) && p.opened_from(reader@, path@, version, keys@),
                Err(e) => if !PackageHeader::spec_valid(reader@) {
                    e == PkgError::HeaderInvalid
                } else {
                    e == PkgError::TableOutOfBounds && !Self::spec_tables_readable(
                        reader@,
                        PackageHeader::spec_decode(reader@),
                    )
                },
            },
    {
        let e = Endian::Little;
        let data: &[u8] = reader.as_slice();
        let len: usize = data.len();
        let header: PackageHeader = match PackageHeader::parse(data) {
            Ok(h) => h,
            Err(err) => {
                return Err(err);
            },
        };
        let entries: Vec<EntryHeader> = match read_table::<EntryHeader>(
            data,
            header.entry_table_offset as usize,
            header.entry_table_size as usize,
            e,
        ) {
            Ok(t) => t,
            Err(err) => {
                return Err(err);
            },
        };
        let blocks: Vec<BlockHeader> = match read_table::<BlockHeader>(
            data,
            header.block_table_offset as usize,
            header.block_table_size as usize,
            e,
        ) {
            Ok(t) => t,
            Err(err) => {
                return Err(err);
            },
        };
        let named_at: u64 = header.named_tag_table_offset as u64 + Self::NAMED_TAG_TABLE_SHIFT;
        if named_at > len as u64 {
            return Err(PkgError::TableOutOfBounds);
        }
        let named_tags: Vec<PackageNamedTagEntry> = match PackageNamedTagEntry::read_table(
            data,
            named_at as usize,
            header.named_tag_table_size as usize,
            e,
        ) {
            Ok(t) => t,
            Err(err) => {
                return Err(err);
            },
        };
        let hashes: Vec<HashTableEntry> = if header.h64_table_size != 0 {
            let at: u64 = header.h64_table_offset as u64 + Self::H64_TABLE_SHIFT;
            if at > len as u64 {
                proof {
                    assert(header.h64_table_size * <HashTableEntry as crate::table::Record>::spec_size() >= 0)
                        by (nonlinear_arith)
                        requires
                            header.h64_table_size >= 0,
                            <HashTableEntry as crate::table::Record>::spec_size() >= 0,
                    ;
                }
                return Err(PkgError::TableOutOfBounds);
            }
            match read_table::<HashTableEntry>(data, at as usize, header.h64_table_size as usize, e) {
                Ok(t) => t,
                Err(err) => {
                    return Err(err);
                },
            }
        } else {
            Vec::new()
        };
        let common = match PackageCommonD2::new(
            reader,
            version,
            path,
            CommonPackageData {
                pkg_id: header.pkg_id,
                patch_id: header.patch_id,
                group_id: header.group_id,
                entries,
                blocks,
                wide_hashes: hashes,
                language: header.language,
            },
            keys,
        ) {
            Ok(c) => c,
            Err(err) => {
                return Err(err);
            },
        };
        Ok(PackageD2BeyondLight { common, header, named_tags })
    }
}

impl Package for PackageD2BeyondLight {
    open spec fn spec_block_request(
        before: Self,
        after: Self,
        index: usize,
        gave: spec_fn(OodleVersion, Seq<u8>, Result<Seq<u8>, PkgError>) -> bool,
        r: Result<Seq<u8>, PkgError>,
    ) -> bool {
        crate::d2_shared::PackageCommonD2::spec_block_request(before.common, after.common, index, gave, r)
    }

    open spec fn wf(&self) -> bool {
        self.common.wf()
    }

    open spec fn spec_entries(&self) -> Seq<UEntryHeader> {
        self.common.entries_unified@
    }

    open spec fn spec_pkg_id(&self) -> u16 {
        self.common.pkg_id
    }

    open spec fn spec_is_block(&self, index: usize, data: Seq<u8>) -> bool {
        self.common.spec_is_block(index, data)
    }

    open spec fn spec_patch_id(&self) -> u16 {
        self.common.patch_id
    }

    open spec fn spec_language(&self) -> PackageLanguage {
        self.common.language
    }

    open spec fn spec_platform(&self) -> PackagePlatform {
        self.header.platform
    }

    open spec fn spec_endianness(&self) -> Endian {
        Endian::Little
    }

    open spec fn spec_hash64_table(&self) -> Seq<UHashTableEntry> {
        spec_unified_hashes(self.common.wide_hashes@)
    }

    open spec fn spec_named_tags(&self) -> Seq<PackageNamedTagEntry> {
        self.named_tags@
    }

    fn endianness(&self) -> (e: Endian) {
        Endian::Little
    }

    fn pkg_id(&self) -> (id: u16) {
        self.common.pkg_id
    }

    fn patch_id(&self) -> (id: u16) {
        self.common.patch_id
    }

    fn language(&self) -> (l: PackageLanguage) {
        self.common.language
    }

    fn platform(&self) -> (p: PackagePlatform) {
        self.header.platform
    }

    fn hash64_table(&self) -> (r: Vec<UHashTableEntry>) {
        unified_hashes(&self.common.wide_hashes)
    }

    fn named_tags(&self) -> (r: Vec<PackageNamedTagEntry>) {
        clone_named_tags(&self.named_tags)
    }

    fn entries(&self) -> (r: &[UEntryHeader]) {
        self.common.entries_unified.as_slice()
    }

    fn entry(&self, index: usize) -> (r: Option<UEntryHeader>) {
        if index < self.common.entries_unified.len() {
            Some(self.common.entries_unified[index])
        } else {
            None
        }
    }

    fn get_block<C>(&mut self, index: usize, codec: &C) -> (r: Result<Arc<Vec<u8>>, PkgError>) where
        C: Fn(OodleVersion, &Vec<u8>) -> CodecOutcome,

        ensures
            crate::d2_shared::PackageCommonD2::spec_block_request(
                old(self).common,
                final(self).common,
                index,
                crate::block::spec_codec(codec),
                crate::block::spec_shared_view(r),
            ),
    {
        self.common.get_block(index, codec)
    }
}

} // verus!
