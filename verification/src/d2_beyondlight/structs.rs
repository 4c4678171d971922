//! The header of an archive of the second title from Beyond Light on.

use vstd::prelude::*;
use crate::bytes::{get_u16, get_u32, get_u64, spec_u16, spec_u32, spec_u64, Endian};
use crate::error::PkgError;
use crate::package::{PackageLanguage, PackagePlatform};

verus! {

/// The header of an archive, stored in little-endian byte order.
#[derive(Clone, Copy, Debug, PartialEq, Eq, Structural)]
pub struct PackageHeader {
    /// Always 53.
    pub version: u16,
    pub platform: PackagePlatform,
    pub group_id: u64,
    pub pkg_id: u16,
    pub build_time: u64,
    pub patch_id: u16,
    pub language: PackageLanguage,
    pub header_signature_offset: u32,
    pub entry_table_size: u32,
    pub entry_table_offset: u32,
    pub block_table_size: u32,
    pub block_table_offset: u32,
    pub named_tag_table_size: u32,
    /// Where the header of the named-tag table starts; its records follow
    /// 0x30 bytes later.
    pub named_tag_table_offset: u32,
    pub h64_table_size: u32,
    /// Where the header of the alias table starts; its rows follow 0x50
    /// bytes later.
    pub h64_table_offset: u32,
    pub file_size: u32,
}

impl PackageHeader {
    /// The number of bytes from the start of the file that the header takes.
    pub const SIZE: usize = 0x124;

    /// The version that the header must carry.
    pub const VERSION: u16 = 53;

    /// Whether the bytes start with a header of this generation: they are
    /// long enough, carry the version, and name a platform and a language.
    pub open spec fn spec_valid(s: Seq<u8>) -> bool {
        &&& s.len() >= Self::SIZE
        &&& spec_u16(s, 0, Endian::Little) == Self::VERSION
        &&& PackagePlatform::spec_from_u16(spec_u16(s, 0x2, Endian::Little)) is Some
        &&& PackageLanguage::spec_from_u16(spec_u16(s, 0x32, Endian::Little)) is Some
    }

    /// The header that valid bytes start with.
    pub open spec fn spec_decode(s: Seq<u8>) -> PackageHeader {
        let e = Endian::Little;
        PackageHeader {
            version: spec_u16(s, 0, e),
            platform: PackagePlatform::spec_from_u16(spec_u16(s, 0x2, e))->0,
            group_id: spec_u64(s, 0x8, e),
            pkg_id: spec_u16(s, 0x10, e),
            build_time: spec_u64(s, 0x20, e),
            patch_id: spec_u16(s, 0x30, e),
            language: PackageLanguage::spec_from_u16(spec_u16(s, 0x32, e))->0,
            header_signature_offset: spec_u32(s, 0x40, e),
            entry_table_size: spec_u32(s, 0x60, e),
            entry_table_offset: spec_u32(s, 0x64, e),
            block_table_size: spec_u32(s, 0x68, e),
            block_table_offset: spec_u32(s, 0x6c, e),
            named_tag_table_size: spec_u32(s, 0x78, e),
            named_tag_table_offset: spec_u32(s, 0x7c, e),
            h64_table_size: spec_u32(s, 0xb8, e),
            h64_table_offset: spec_u32(s, 0xbc, e),
            file_size: spec_u32(s, 0x120, e),
        }
    }

    /// Reads the header at the start of an archive. `HeaderInvalid` exactly
    /// when the bytes do not start with a header of this generation.
    pub fn parse(data: &[u8]) -> (r: Result<PackageHeader, PkgError>)
        ensures
            r == if Self::spec_valid(data@) {
                Ok::<PackageHeader, PkgError>(Self::spec_decode(data@))
            } else {
                Err(PkgError::HeaderInvalid)
            },
    {
        if data.len() < Self::SIZE {
            return Err(PkgError::HeaderInvalid);
        }
        let e = Endian::Little;
        let version: u16 = get_u16(data, 0, e);
        if version != Self::VERSION {
            return Err(PkgError::HeaderInvalid);
        }
        let platform: PackagePlatform = match PackagePlatform::from_u16(get_u16(data, 0x2, e)) {
            Some(p) => p,
            None => {
                return Err(PkgError::HeaderInvalid);
            },
        };
        let language: PackageLanguage = match PackageLanguage::from_u16(get_u16(data, 0x32, e)) {
            Some(l) => l,
            None => {
                return Err(PkgError::HeaderInvalid);
            },
        };
        Ok(
            PackageHeader {
                version,
                platform,
                group_id: get_u64(data, 0x8, e),
                pkg_id: get_u16(data, 0x10, e),
                build_time: get_u64(data, 0x20, e),
                patch_id: get_u16(data, 0x30, e),
                language,
                header_signature_offset: get_u32(data, 0x40, e),
                entry_table_size: get_u32(data, 0x60, e),
                entry_table_offset: get_u32(data, 0x64, e),
                block_table_size: get_u32(data, 0x68, e),
                block_table_offset: get_u32(data, 0x6c, e),
                named_tag_table_size: get_u32(data, 0x78, e),
                named_tag_table_offset: get_u32(data, 0x7c, e),
                h64_table_size: get_u32(data, 0xb8, e),
                h64_table_offset: get_u32(data, 0xbc, e),
                file_size: get_u32(data, 0x120, e),
            },
        )
    }
}

} // verus!
