//! The reader of an archive of the beta of the second title.

use std::sync::Arc;
use vstd::prelude::*;
use crate::bytes::{spec_u32, Endian};
use crate::crypto::{GroupKey, KeyTable};
use crate::d2_beta::structs::PackageHeader;
use crate::d2_shared::{
    clone_named_tags, read_named_tags_ref, spec_is_named_tags_ref, spec_named_tags_ref_readable, spec_path_base,
    BlockHeader, CommonPackageData, EntryHeader, PackageCommonD2, PackageNamedTagEntry,
};
use crate::error::PkgError;
use crate::oodle::{CodecOutcome, OodleVersion};
use crate::package::{Package, PackageLanguage, PackagePlatform, UEntryHeader, UHashTableEntry};
use crate::table::{read_table, spec_is_table, spec_table_in_bounds};
use crate::version::DestinyVersion;

verus! {

/// An open archive of the beta of the second title.
pub struct PackageD2Beta {
    pub common: PackageCommonD2,
    pub header: PackageHeader,
    pub named_tags: Vec<PackageNamedTagEntry>,
}

impl PackageD2Beta {
    /// Whether the tables that the header of `s` points to lie inside `s`.
    pub open spec fn spec_tables_readable(s: Seq<u8>) -> bool {
        let e = Endian::Little;
        &&& spec_table_in_bounds::<EntryHeader>(s, spec_u32(s, 0xb8, e) as int, spec_u32(s, 0xb4, e) as int)
        &&& spec_table_in_bounds::<BlockHeader>(s, spec_u32(s, 0xd4, e) as int, spec_u32(s, 0xd0, e) as int)
        &&& spec_u32(s, 0xf0, e) != 0 ==> spec_named_tags_ref_readable(s, spec_u32(s, 0xf0, e) + 0x8, e)
    }

    /// Whether `self` is the reader that opening the image `s` under `path`
    /// gives, with the keys `keys` registered.
    pub open spec fn opened_from(&self, s: Seq<u8>, path: Seq<char>, keys: Map<u64, GroupKey>) -> bool {
        let e = Endian::Little;
        let h = self.header;
        &&& h.decodes(s)
        &&& self.common.wf()
        &&& self.common.version == DestinyVersion::Destiny2Beta
        &&& self.common.pkg_id == h.pkg_id
        &&& self.common.patch_id == h.patch_id
        &&& self.common.language == h.language
        &&& spec_is_table(self.common.entries@, s, h.entry_table_offset as int, h.entry_table_size as int, e)
        &&& self.common.entries_unified@.len() == h.entry_table_size
        &&& spec_is_table(self.common.blocks@, s, h.block_table_offset as int, h.block_table_size as int, e)
        &&& self.common.wide_hashes@.len() == 0
        &&& self.common.file_handles@ == crate::block::spec_one_file(h.patch_id, s)
        &&& self.common.path_base@ == spec_path_base(path)
        &&& self.common.block_cache@.len() == 0
        &&& crate::d2_shared::spec_keys_for(self.common.gcm, h.pkg_id, DestinyVersion::Destiny2Beta, h.group_id, keys)
        &&& if h.misc_data_offset == 0 {
            self.named_tags@.len() == 0
        } else {
            spec_is_named_tags_ref(self.named_tags@, s, h.misc_data_offset + 0x8, e)
        }
    }

    /// Opens an archive from the image of its file.
    ///
    /// `HeaderInvalid` when the image does not start with a header of this
    /// generation; else `TableOutOfBounds` when a table that the header
    /// points to reaches outside the image.
    pub fn from_reader(path: &str, reader: Vec<u8>, keys: &KeyTable) -> (r: Result<PackageD2Beta, PkgError>)
        ensures
            match r {
                Ok(p) => PackageHeader::spec_valid(reader@) && Self::spec_tables_readable(reader@)
                    && p.opened_from(reader@, path@, keys@),
                Err(e) => if !PackageHeader::spec_valid(reader@) {
                    e == PkgError::HeaderInvalid
                } else {
                    e == PkgError::TableOutOfBounds && !Self::spec_tables_readable(reader@)
                },
            },
    {
        let e = Endian::Little;
        let data: &[u8] = reader.as_slice();
        let header: PackageHeader = match PackageHeader::parse(data) {
            Ok(h) => h,
            Err(err) => {
                return Err(err);
            },
        };
        let entries: Vec<EntryHeader> = match read_table::<EntryHeader>(
            data,
            header.entry_table_offset as usize,
            header.entry_table_size as usize,
            e,
        ) {
            Ok(t) => t,
            Err(err) => {
                return Err(err);
            },
        };
        let blocks: Vec<BlockHeader> = match read_table::<BlockHeader>(
            data,
            header.block_table_offset as usize,
            header.block_table_size as usize,
            e,
        ) {
            Ok(t) => t,
            Err(err) => {
                return Err(err);
            },
        };
        let named_tags: Vec<PackageNamedTagEntry> = if header.misc_data_offset != 0 {
            let at: u64 = header.misc_data_offset as u64 + 0x8;
            if at > data.len() as u64 {
                return Err(PkgError::TableOutOfBounds);
            }
            match read_named_tags_ref(data, at as usize, e) {
                Ok(t) => t,
                Err(err) => {
                    return Err(err);
                },
            }
        } else {
            Vec::new()
        };
        let common = match PackageCommonD2::new(
            reader,
            DestinyVersion::Destiny2Beta,
            path,
            CommonPackageData {
                pkg_id: header.pkg_id,
                patch_id: header.patch_id,
                group_id: header.group_id,
                entries,
                blocks,
                wide_hashes: Vec::new(),
                language: header.language,
            },
            keys,
        ) {
            Ok(c) => c,
            Err(err) => {
                return Err(err);
            },
        };
        Ok(PackageD2Beta { common, header, named_tags })
    }
}

impl Package for PackageD2Beta {
    open spec fn spec_block_request(
        before: Self,
        after: Self,
        index: usize,
        gave: spec_fn(OodleVersion, Seq<u8>, Result<Seq<u8>, PkgError>) -> bool,
        r: Result<Seq<u8>, PkgError>,
    ) -> bool {
        crate::d2_shared::PackageCommonD2::spec_block_request(before.common, after.common, index, gave, r)
    }

    open spec fn wf(&self) -> bool {
        self.common.wf()
    }

    open spec fn spec_entries(&self) -> Seq<UEntryHeader> {
        self.common.entries_unified@
    }

    open spec fn spec_pkg_id(&self) -> u16 {
        self.common.pkg_id
    }

    open spec fn spec_is_block(&self, index: usize, data: Seq<u8>) -> bool {
        self.common.spec_is_block(index, data)
    }

    open spec fn spec_patch_id(&self) -> u16 {
        self.common.patch_id
    }

    open spec fn spec_language(&self) -> PackageLanguage {
        self.common.language
    }

    open spec fn spec_platform(&self) -> PackagePlatform {
        self.header.platform
    }

    open spec fn spec_endianness(&self) -> Endian {
        Endian::Little
    }

    open spec fn spec_hash64_table(&self) -> Seq<UHashTableEntry> {
        Seq::empty()
    }

    open spec fn spec_named_tags(&self) -> Seq<PackageNamedTagEntry> {
        self.named_tags@
    }

    fn endianness(&self) -> (e: Endian) {
        Endian::Little
    }

    fn pkg_id(&self) -> (id: u16) {
        self.common.pkg_id
    }

    fn patch_id(&self) -> (id: u16) {
        self.common.patch_id
    }

    fn language(&self) -> (l: PackageLanguage) {
        self.common.language
    }

    fn platform(&self) -> (p: PackagePlatform) {
        self.header.platform
    }

    fn hash64_table(&self) -> (r: Vec<UHashTableEntry>) {
        Vec::new()
    }

    fn named_tags(&self) -> (r: Vec<PackageNamedTagEntry>) {
        clone_named_tags(&self.named_tags)
    }

    fn entries(&self) -> (r: &[UEntryHeader]) {
        self.common.entries_unified.as_slice()
    }

    fn entry(&self, index: usize) -> (r: Option<UEntryHeader>) {
        if index < self.common.entries_unified.len() {
            Some(self.common.entries_unified[index])
        } else {
            None
        }
    }

    fn get_block<C>(&mut self, index: usize, codec: &C) -> (r: Result<Arc<Vec<u8>>, PkgError>) where
        C: Fn(OodleVersion, &Vec<u8>) -> CodecOutcome,

        ensures
            crate::d2_shared::PackageCommonD2::spec_block_request(
                old(self).common,
                final(self).common,
                index,
                crate::block::spec_codec(codec),
                crate::block::spec_shared_view(r),
            ),
    {
        self.common.get_block(index, codec)
    }
}

} // verus!
