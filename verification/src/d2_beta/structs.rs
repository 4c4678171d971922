//! The header of an archive of the beta of the second title.

use vstd::prelude::*;
use crate::bytes::{
    get_array, get_trimmed, get_u16, get_u32, get_u64, spec_trim_nul, spec_u16, spec_u32, spec_u64, Endian,
};
use crate::error::PkgError;
use crate::package::{PackageLanguage, PackagePlatform};
use crate::text::{spec_utf8_lossy, utf8_lossy};

verus! {

/// The header of an archive, stored in little-endian byte order.
#[derive(Debug)]
pub struct PackageHeader {
    /// Always 38.
    pub version: u16,
    pub platform: PackagePlatform,
    pub pkg_id: u16,
    pub _unk6: u16,
    pub group_id: u64,
    pub build_time: u64,
    pub _unk18: u32,
    pub _unk1c: u32,
    pub patch_id: u16,
    pub language: PackageLanguage,
    /// The name of the tool that built the archive, without padding.
    pub tool_string: String,
    pub _unka4: u32,
    pub _unka8: u32,
    pub _unkac: u32,
    pub header_signature_offset: u32,
    pub entry_table_size: u32,
    pub entry_table_offset: u32,
    pub entry_table_hash: [u8; 20],
    pub block_table_size: u32,
    pub block_table_offset: u32,
    pub block_table_hash: [u8; 20],
    pub misc_data_size: u32,
    pub misc_data_offset: u32,
    pub misc_data_hash: [u8; 20],
    pub file_size: u32,
}

impl PackageHeader {
    /// The number of bytes from the start of the file that the header takes.
    pub const SIZE: usize = 0x168;

    /// The version that the header must carry.
    pub const VERSION: u16 = 38;

    /// Whether the bytes start with a header of this generation: they are
    /// long enough, carry the version, and name a platform and a language.
    pub open spec fn spec_valid(s: Seq<u8>) -> bool {
        &&& s.len() >= Self::SIZE
        &&& spec_u16(s, 0, Endian::Little) == Self::VERSION
        &&& PackagePlatform::spec_from_u16(spec_u16(s, 0x2, Endian::Little)) is Some
        &&& PackageLanguage::spec_from_u16(spec_u16(s, 0x22, Endian::Little)) is Some
    }

    /// Whether `self` is the header that the bytes start with.
    pub open spec fn decodes(&self, s: Seq<u8>) -> bool {
        let e = Endian::Little;
        &&& self.version == spec_u16(s, 0, e)
        &&& Some(self.platform) == PackagePlatform::spec_from_u16(spec_u16(s, 0x2, e))
        &&& self.pkg_id == spec_u16(s, 0x4, e)
        &&& self._unk6 == spec_u16(s, 0x6, e)
        &&& self.group_id == spec_u64(s, 0x8, e)
        &&& self.build_time == spec_u64(s, 0x10, e)
        &&& self._unk18 == spec_u32(s, 0x18, e)
        &&& self._unk1c == spec_u32(s, 0x1c, e)
        &&& self.patch_id == spec_u16(s, 0x20, e)
        &&& Some(self.language) == PackageLanguage::spec_from_u16(spec_u16(s, 0x22, e))
        &&& self.tool_string@ == spec_utf8_lossy(spec_trim_nul(s.subrange(0x24, 0xa4)))
        &&& self._unka4 == spec_u32(s, 0xa4, e)
        &&& self._unka8 == spec_u32(s, 0xa8, e)
        &&& self._unkac == spec_u32(s, 0xac, e)
        &&& self.header_signature_offset == spec_u32(s, 0xb0, e)
        &&& self.entry_table_size == spec_u32(s, 0xb4, e)
        &&& self.entry_table_offset == spec_u32(s, 0xb8, e)
        &&& self.entry_table_hash@ == s.subrange(0xbc, 0xd0)
        &&& self.block_table_size == spec_u32(s, 0xd0, e)
        &&& self.block_table_offset == spec_u32(s, 0xd4, e)
        &&& self.block_table_hash@ == s.subrange(0xd8, 0xec)
        &&& self.misc_data_size == spec_u32(s, 0xec, e)
        &&& self.misc_data_offset == spec_u32(s, 0xf0, e)
        &&& self.misc_data_hash@ == s.subrange(0xf4, 0x108)
        &&& self.file_size == spec_u32(s, 0x164, e)
    }

    /// Reads the header at the start of an archive. `HeaderInvalid` exactly
    /// when the bytes do not start with a header of this generation.
    pub fn parse(data: &[u8]) -> (r: Result<PackageHeader, PkgError>)
        ensures
            match r {
                Ok(h) => Self::spec_valid(data@) && h.decodes(data@),
                Err(e) => e == PkgError::HeaderInvalid && !Self::spec_valid(data@),
            },
    {
        if data.len() < Self::SIZE {
            return Err(PkgError::HeaderInvalid);
        }
        let e = Endian::Little;
        let version: u16 = get_u16(data, 0, e);
        if version != Self::VERSION {
            return Err(PkgError::HeaderInvalid);
        }
        let platform: PackagePlatform = match PackagePlatform::from_u16(get_u16(data, 0x2, e)) {
            Some(p) => p,
            None => {
                return Err(PkgError::HeaderInvalid);
            },
        };
        let language: PackageLanguage = match PackageLanguage::from_u16(get_u16(data, 0x22, e)) {
            Some(l) => l,
            None => {
                return Err(PkgError::HeaderInvalid);
            },
        };
        let tool: Vec<u8> = get_trimmed(data, 0x24, 128);
        Ok(
            PackageHeader {
                version,
                platform,
                pkg_id: get_u16(data, 0x4, e),
                _unk6: get_u16(data, 0x6, e),
                group_id: get_u64(data, 0x8, e),
                build_time: get_u64(data, 0x10, e),
                _unk18: get_u32(data, 0x18, e),
                _unk1c: get_u32(data, 0x1c, e),
                patch_id: get_u16(data, 0x20, e),
                language,
                tool_string: utf8_lossy(tool.as_slice()),
                _unka4: get_u32(data, 0xa4, e),
                _unka8: get_u32(data, 0xa8, e),
                _unkac: get_u32(data, 0xac, e),
                header_signature_offset: get_u32(data, 0xb0, e),
                entry_table_size: get_u32(data, 0xb4, e),
                entry_table_offset: get_u32(data, 0xb8, e),
                entry_table_hash: get_array::<20>(data, 0xbc),
                block_table_size: get_u32(data, 0xd0, e),
                block_table_offset: get_u32(data, 0xd4, e),
                block_table_hash: get_array::<20>(data, 0xd8),
                misc_data_size: get_u32(data, 0xec, e),
                misc_data_offset: get_u32(data, 0xf0, e),
                misc_data_hash: get_array::<20>(data, 0xf4),
                file_size: get_u32(data, 0x164, e),
            },
        )
    }
}

} // verus!
