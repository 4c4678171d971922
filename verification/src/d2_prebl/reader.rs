//! The reader of an archive of the second title before Beyond Light.

use std::sync::Arc;
use vstd::prelude::*;
use crate::bytes::{read_u32, spec_in_bounds, spec_u32, Endian};
use crate::crypto::{GroupKey, KeyTable};
use crate::d2_prebl::structs::PackageHeader;
use crate::d2_shared::{
    clone_named_tags, read_named_tags_ref, spec_is_named_tags_ref, spec_named_tags_ref_readable, spec_path_base,
    BlockHeader, CommonPackageData, EntryHeader, HashTableEntry, PackageCommonD2, PackageNamedTagEntry,
};
use crate::error::PkgError;
use crate::oodle::{CodecOutcome, OodleVersion};
use crate::package::{Package, PackageLanguage, PackagePlatform, UEntryHeader, UHashTableEntry};
use crate::table::{
    read_ref_table, read_table, spec_is_ref_table, spec_is_table, spec_ref_table_in_bounds, spec_table_in_bounds,
};
use crate::version::DestinyVersion;

verus! {

/// An open archive of the second title before Beyond Light.
pub struct PackageD2PreBL {
    pub common: PackageCommonD2,
    pub header: PackageHeader,
    pub named_tags: Vec<PackageNamedTagEntry>,
}

/// The rows of an alias table in the shape that all generations share.
pub open spec fn spec_unified_hashes(rows: Seq<HashTableEntry>) -> Seq<UHashTableEntry> {
    Seq::new(rows.len(), |i: int| rows[i].spec_unified())
}

/// Projects the rows of an alias table into the shape that all generations
/// share.
pub fn unified_hashes(rows: &Vec<HashTableEntry>) -> (r: Vec<UHashTableEntry>)
    ensures
        r@ == spec_unified_hashes(rows@),
{
    let mut out: Vec<UHashTableEntry> = Vec::new();
    let mut i: usize = 0;
    while i < rows.len()
        invariant
            i <= rows@.len(),
            out@ == spec_unified_hashes(rows@.subrange(0, i as int)),
        decreases rows.len() - i,
    {
        out.push(rows[i].unified());
        proof {
            assert(out@ =~= spec_unified_hashes(rows@.subrange(0, i + 1)));
        }
        i = i + 1;
    }
    proof {
        assert(rows@.subrange(0, rows@.len() as int) =~= rows@);
    }
    out
}

impl PackageD2PreBL {
    /// Where the entry table of `s` starts.
    pub open spec fn spec_entry_table_offset(s: Seq<u8>) -> int {
        spec_u32(s, 0x110, Endian::Little) + PackageHeader::ENTRY_TABLE_SHIFT
    }

    /// Where the block table of `s` starts: behind the entry table, whose
    /// length in units of sixteen bytes stands sixteen bytes before it, and a
    /// gap of 32 bytes.
    pub open spec fn spec_block_table_offset(s: Seq<u8>) -> int {
        let entries = Self::spec_entry_table_offset(s);
        entries + spec_u32(s, entries - 16, Endian::Little) * 16 + 32
    }

    /// Whether the tables that the header of `s` points to lie inside `s`.
    pub open spec fn spec_tables_readable(s: Seq<u8>) -> bool {
        let e = Endian::Little;
        let entries = Self::spec_entry_table_offset(s);
        let misc = spec_u32(s, 0xf0, e);
        &&& spec_in_bounds(s, entries - 16, 4)
        &&& spec_table_in_bounds::<EntryHeader>(s, entries, spec_u32(s, 0xb4, e) as int)
        &&& spec_table_in_bounds::<BlockHeader>(s, Self::spec_block_table_offset(s), spec_u32(s, 0xd0, e) as int)
        &&& misc != 0 ==> spec_ref_table_in_bounds::<HashTableEntry>(s, misc + 0x30, e)
        &&& misc != 0 ==> spec_named_tags_ref_readable(s, misc + 0x10, e)
    }

    /// Whether `self` is the reader that opening the image `s` under `path`
    /// gives, with the keys `keys` registered.
    pub open spec fn opened_from(&self, s: Seq<u8>, path: Seq<char>, keys: Map<u64, GroupKey>) -> bool {
        let e = Endian::Little;
        let h = self.header;
        &&& h.decodes(s)
        &&& self.common.wf()
        &&& self.common.version == DestinyVersion::Destiny2Shadowkeep
        &&& self.common.pkg_id == h.pkg_id
        &&& self.common.patch_id == h.patch_id
        &&& self.common.language == h.language
        &&& spec_is_table(self.common.entries@, s, h.entry_table_offset as int, h.entry_table_size as int, e)
        &&& self.common.entries_unified@.len() == h.entry_table_size
        &&& spec_is_table(
            self.common.blocks@,
            s,
            Self::spec_block_table_offset(s),
            h.block_table_size as int,
            e,
        )
        &&& self.common.file_handles@ == crate::block::spec_one_file(h.patch_id, s)
        &&& self.common.path_base@ == spec_path_base(path)
        &&& self.common.block_cache@.len() == 0
        &&& crate::d2_shared::spec_keys_for(self.common.gcm, h.pkg_id, DestinyVersion::Destiny2Shadowkeep, h.group_id, keys)
        &&& if h.misc_data_offset == 0 {
            self.named_tags@.len() == 0 && self.common.wide_hashes@.len() == 0
        } else {
            spec_is_named_tags_ref(self.named_tags@, s, h.misc_data_offset + 0x10, e) && spec_is_ref_table(
                self.common.wide_hashes@,
                s,
                h.misc_data_offset + 0x30,
                e,
            )
        }
    }

    /// Opens an archive from the image of its file.
    ///
    /// `HeaderInvalid` when the image does not start with a header of this
    /// generation; else `TableOutOfBounds` when a table that the header
    /// points to reaches outside the image.
    pub fn from_reader(path: &str, reader: Vec<u8>, keys: &KeyTable) -> (r: Result<PackageD2PreBL, PkgError>)
        ensures
            match r {
                Ok(p) => PackageHeader::spec_valid(reader@) && Self::spec_tables_readable(reader@)
                    && p.opened_from(reader@, path@, keys@),
                Err(e) => if !PackageHeader::spec_valid(reader@) {
                    e == PkgError::HeaderInvalid
                } else {
                    e == PkgError::TableOutOfBounds && !Self::spec_tables_readable(reader@)
                },
            },
    {
        let e = Endian::Little;
        let data: &[u8] = reader.as_slice();
        let len: usize = data.len();
        let header: PackageHeader = match PackageHeader::parse(data) {
            Ok(h) => h,
            Err(err) => {
                return Err(err);
            },
        };
        let entry_table_offset: usize = header.entry_table_offset as usize;
        let table_units: u32 = match read_u32(data, entry_table_offset - 16, e) {
            Some(v) => v,
            None => {
                return Err(PkgError::TableOutOfBounds);
            },
        };
        let entries: Vec<EntryHeader> = match read_table::<EntryHeader>(
            data,
            entry_table_offset,
            header.entry_table_size as usize,
            e,
        ) {
            Ok(t) => t,
            Err(err) => {
                return Err(err);
            },
        };
        let block_table_offset: u64 = header.entry_table_offset as u64 + (table_units as u64) * 16 + 32;
        if block_table_offset > len as u64 {
            proof {
                assert(header.block_table_size * <BlockHeader as crate::table::Record>::spec_size() >= 0) by (nonlinear_arith)
                    requires
                        header.block_table_size >= 0,
                        <BlockHeader as crate::table::Record>::spec_size() >= 0,
                ;
            }
            return Err(PkgError::TableOutOfBounds);
        }
        let blocks: Vec<BlockHeader> = match read_table::<BlockHeader>(
            data,
            block_table_offset as usize,
            header.block_table_size as usize,
            e,
        ) {
            Ok(t) => t,
            Err(err) => {
                return Err(err);
            },
        };
        let misc: u64 = header.misc_data_offset as u64;
        let hashes: Vec<HashTableEntry> = if misc != 0 {
            if misc + 0x30 > len as u64 {
                return Err(PkgError::TableOutOfBounds);
            }
            match read_ref_table::<HashTableEntry>(data, (misc + 0x30) as usize, e) {
                Ok(t) => t,
                Err(err) => {
                    return Err(err);
                },
            }
        } else {
            Vec::new()
        };
        let named_tags: Vec<PackageNamedTagEntry> = if misc != 0 {
            match read_named_tags_ref(data, (misc + 0x10) as usize, e) {
                Ok(t) => t,
                Err(err) => {
                    return Err(err);
                },
            }
        } else {
            Vec::new()
        };
        let common = match PackageCommonD2::new(
            reader,
            DestinyVersion::Destiny2Shadowkeep,
            path,
            CommonPackageData {
                pkg_id: header.pkg_id,
                patch_id: header.patch_id,
                group_id: header.group_id,
                entries,
                blocks,
                wide_hashes: hashes,
                language: header.language,
            },
            keys,
        ) {
            Ok(c) => c,
            Err(err) => {
                return Err(err);
            },
        };
        Ok(PackageD2PreBL { common, header, named_tags })
    }
}

impl Package for PackageD2PreBL {
    open spec fn spec_block_request(
        before: Self,
        after: Self,
        index: usize,
        gave: spec_fn(OodleVersion, Seq<u8>, Result<Seq<u8>, PkgError>) -> bool,
        r: Result<Seq<u8>, PkgError>,
    ) -> bool {
        crate::d2_shared::PackageCommonD2::spec_block_request(before.common, after.common, index, gave, r)
    }

    open spec fn wf(&self) -> bool {
        self.common.wf()
    }

    open spec fn spec_entries(&self) -> Seq<UEntryHeader> {
        self.common.entries_unified@
    }

    open spec fn spec_pkg_id(&self) -> u16 {
        self.common.pkg_id
    }

    open spec fn spec_is_block(&self, index: usize, data: Seq<u8>) -> bool {
        self.common.spec_is_block(index, data)
    }

    open spec fn spec_patch_id(&self) -> u16 {
        self.common.patch_id
    }

    open spec fn spec_language(&self) -> PackageLanguage {
        self.common.language
    }

    open spec fn spec_platform(&self) -> PackagePlatform {
        self.header.platform
    }

    open spec fn spec_endianness(&self) -> Endian {
        Endian::Little
    }

    open spec fn spec_hash64_table(&self) -> Seq<UHashTableEntry> {
        spec_unified_hashes(self.common.wide_hashes@)
    }

    open spec fn spec_named_tags(&self) -> Seq<PackageNamedTagEntry> {
        self.named_tags@
    }

    fn endianness(&self) -> (e: Endian) {
        Endian::Little
    }

    fn pkg_id(&self) -> (id: u16) {
        self.common.pkg_id
    }

    fn patch_id(&self) -> (id: u16) {
        self.common.patch_id
    }

    fn language(&self) -> (l: PackageLanguage) {
        self.common.language
    }

    fn platform(&self) -> (p: PackagePlatform) {
        self.header.platform
    }

    fn hash64_table(&self) -> (r: Vec<UHashTableEntry>) {
        unified_hashes(&self.common.wide_hashes)
    }

    fn named_tags(&self) -> (r: Vec<PackageNamedTagEntry>) {
        clone_named_tags(&self.named_tags)
    }

    fn entries(&self) -> (r: &[UEntryHeader]) {
        self.common.entries_unified.as_slice()
    }

    fn entry(&self, index: usize) -> (r: Option<UEntryHeader>) {
        if index < self.common.entries_unified.len() {
            Some(self.common.entries_unified[index])
        } else {
            None
        }
    }

    fn get_block<C>(&mut self, index: usize, codec: &C) -> (r: Result<Arc<Vec<u8>>, PkgError>) where
        C: Fn(OodleVersion, &Vec<u8>) -> CodecOutcome,

        ensures
            crate::d2_shared::PackageCommonD2::spec_block_request(
                old(self).common,
                final(self).common,
                index,
                crate::block::spec_codec(codec),
                crate::block::spec_shared_view(r),
            ),
    {
        self.common.get_block(index, codec)
    }
}

} // verus!
