//! The header of the archives of the second title at its release, when they
//! existed for one platform only. The records are those that all its
//! generations share.

use vstd::prelude::*;
use crate::bytes::{get_trimmed, get_u16, get_u32, get_u64, spec_trim_nul, spec_u16, spec_u32, spec_u64, Endian};
use crate::error::PkgError;
use crate::text::{spec_utf8_lossy, utf8_lossy};

pub use crate::d2_shared::{BlockHeader, EntryHeader};

verus! {

/// The header of an archive, stored in little-endian byte order.
#[derive(Debug)]
pub struct PackageHeader {
    pub pkg_id: u16,
    pub _unk6: u16,
    pub _unk8: u64,
    pub build_time: u64,
    pub _unk18: u32,
    pub _unk1c: u32,
    pub patch_id: u16,
    pub _unk22: u16,
    /// The name of the tool that built the archive, without padding.
    pub tool_string: String,
    pub _unka4: u32,
    pub _unka8: u32,
    pub _unkac: u32,
    pub header_signature_offset: u32,
    pub entry_table_size: u32,
    pub block_table_size: u32,
    /// Where the entry table starts: 96 bytes after what the header stores.
    pub entry_table_offset: u32,
    pub file_size: u32,
}

impl PackageHeader {
    /// The number of bytes from the start of the file that the header takes.
    pub const SIZE: usize = 0x168;

    /// The four bytes that the header starts with, as a number.
    pub const MAGIC: u32 = 0x20026;

    /// What is added to the stored entry table offset.
    pub const ENTRY_TABLE_SHIFT: u32 = 96;

    /// Whether the bytes start with a header of this kind: they are long
    /// enough, start with the magic number, and the entry table offset fits
    /// in 32 bits.
    pub open spec fn spec_valid(s: Seq<u8>) -> bool {
        &&& s.len() >= Self::SIZE
        &&& spec_u32(s, 0, Endian::Little) == Self::MAGIC
        &&& spec_u32(s, 0x110, Endian::Little) + Self::ENTRY_TABLE_SHIFT <= u32::MAX
    }

    /// Whether `self` is the header that the bytes start with.
    pub open spec fn decodes(&self, s: Seq<u8>) -> bool {
        let e = Endian::Little;
        &&& self.pkg_id == spec_u16(s, 0x4, e)
        &&& self._unk6 == spec_u16(s, 0x6, e)
        &&& self._unk8 == spec_u64(s, 0x8, e)
        &&& self.build_time == spec_u64(s, 0x10, e)
        &&& self._unk18 == spec_u32(s, 0x18, e)
        &&& self._unk1c == spec_u32(s, 0x1c, e)
        &&& self.patch_id == spec_u16(s, 0x20, e)
        &&& self._unk22 == spec_u16(s, 0x22, e)
        &&& self.tool_string@ == spec_utf8_lossy(spec_trim_nul(s.subrange(0x24, 0xa4)))
        &&& self._unka4 == spec_u32(s, 0xa4, e)
        &&& self._unka8 == spec_u32(s, 0xa8, e)
        &&& self._unkac == spec_u32(s, 0xac, e)
        &&& self.header_signature_offset == spec_u32(s, 0xb0, e)
        &&& self.entry_table_size == spec_u32(s, 0xb4, e)
        &&& self.block_table_size == spec_u32(s, 0xd0, e)
        &&& self.entry_table_offset == spec_u32(s, 0x110, e) + Self::ENTRY_TABLE_SHIFT
        &&& self.file_size == spec_u32(s, 0x164, e)
    }

    /// Reads the header at the start of an archive. `HeaderInvalid` exactly
    /// when the bytes do not start with a header of this kind.
    pub fn parse(data: &[u8]) -> (r: Result<PackageHeader, PkgError>)
        ensures
            match r {
                Ok(h) => Self::spec_valid(data@) && h.decodes(data@),
                Err(e) => e == PkgError::HeaderInvalid && !Self::spec_valid(data@),
            },
    {
        if data.len() < Self::SIZE {
            return Err(PkgError::HeaderInvalid);
        }
        let e = Endian::Little;
        if get_u32(data, 0, e) != Self::MAGIC {
            return Err(PkgError::HeaderInvalid);
        }
        let stored_offset: u32 = get_u32(data, 0x110, e);
        if stored_offset > u32::MAX - Self::ENTRY_TABLE_SHIFT {
            return Err(PkgError::HeaderInvalid);
        }
        let tool: Vec<u8> = get_trimmed(data, 0x24, 128);
        Ok(
            PackageHeader {
                pkg_id: get_u16(data, 0x4, e),
                _unk6: get_u16(data, 0x6, e),
                _unk8: get_u64(data, 0x8, e),
                build_time: get_u64(data, 0x10, e),
                _unk18: get_u32(data, 0x18, e),
                _unk1c: get_u32(data, 0x1c, e),
                patch_id: get_u16(data, 0x20, e),
                _unk22: get_u16(data, 0x22, e),
                tool_string: utf8_lossy(tool.as_slice()),
                _unka4: get_u32(data, 0xa4, e),
                _unka8: get_u32(data, 0xa8, e),
                _unkac: get_u32(data, 0xac, e),
                header_signature_offset: get_u32(data, 0xb0, e),
                entry_table_size: get_u32(data, 0xb4, e),
                block_table_size: get_u32(data, 0xd0, e),
                entry_table_offset: stored_offset + Self::ENTRY_TABLE_SHIFT,
                file_size: get_u32(data, 0x164, e),
            },
        )
    }
}

} // verus!
