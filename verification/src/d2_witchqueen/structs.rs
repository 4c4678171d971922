//! The header of an archive of Witch Queen. Its records are those that the
//! generations of the second title share.

use vstd::prelude::*;
use crate::bytes::{get_u16, get_u32, get_u64, spec_u16, spec_u32, spec_u64, Endian};
use crate::error::PkgError;

pub use crate::d2_shared::{BlockHeader, EntryHeader, HashTableEntry};

verus! {

/// The header of an archive, stored in little-endian byte order.
#[derive(Clone, Copy, Debug)]
pub struct PackageHeader {
    /// Always 53 and 2.
    pub version: (u16, u16),
    pub pkg_id: u16,
    pub build_time: u64,
    pub patch_id: u16,
    pub header_signature_offset: u32,
    pub entry_table_size: u32,
    pub entry_table_offset: u32,
    pub block_table_size: u32,
    pub block_table_offset: u32,
    pub file_size: u32,
}

impl PackageHeader {
    /// The number of bytes from the start of the file that the header takes.
    pub const SIZE: usize = 0x124;

    /// Whether the bytes start with a header of this generation: they are
    /// long enough and carry the two version numbers.
    pub open spec fn spec_valid(s: Seq<u8>) -> bool {
        &&& s.len() >= Self::SIZE
        &&& spec_u16(s, 0, Endian::Little) == 53
        &&& spec_u16(s, 2, Endian::Little) == 2
    }

    /// The header that valid bytes start with.
    pub open spec fn spec_decode(s: Seq<u8>) -> PackageHeader {
        let e = Endian::Little;
        PackageHeader {
            version: (spec_u16(s, 0, e), spec_u16(s, 2, e)),
            pkg_id: spec_u16(s, 0x10, e),
            build_time: spec_u64(s, 0x20, e),
            patch_id: spec_u16(s, 0x30, e),
            header_signature_offset: spec_u32(s, 0x40, e),
            entry_table_size: spec_u32(s, 0x60, e),
            entry_table_offset: spec_u32(s, 0x64, e),
            block_table_size: spec_u32(s, 0x68, e),
            block_table_offset: spec_u32(s, 0x6c, e),
            file_size: spec_u32(s, 0x120, e),
        }
    }

    /// Reads the header at the start of an archive. `HeaderInvalid` exactly
    /// when the bytes do not start with a header of this generation.
    pub fn parse(data: &[u8]) -> (r: Result<PackageHeader, PkgError>)
        ensures
            r == if Self::spec_valid(data@) {
                Ok::<PackageHeader, PkgError>(Self::spec_decode(data@))
            } else {
                Err(PkgError::HeaderInvalid)
            },
    {
        if data.len() < Self::SIZE {
            return Err(PkgError::HeaderInvalid);
        }
        let e = Endian::Little;
        let major: u16 = get_u16(data, 0, e);
        let minor: u16 = get_u16(data, 2, e);
        if major != 53 || minor != 2 {
            return Err(PkgError::HeaderInvalid);
        }
        Ok(
            PackageHeader {
                version: (major, minor),
                pkg_id: get_u16(data, 0x10, e),
                build_time: get_u64(data, 0x20, e),
                patch_id: get_u16(data, 0x30, e),
                header_signature_offset: get_u32(data, 0x40, e),
                entry_table_size: get_u32(data, 0x60, e),
                entry_table_offset: get_u32(data, 0x64, e),
                block_table_size: get_u32(data, 0x68, e),
                block_table_offset: get_u32(data, 0x6c, e),
                file_size: get_u32(data, 0x120, e),
            },
        )
    }
}

} // verus!
