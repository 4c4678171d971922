//! The header and the records of an archive of Rise of Iron.

use vstd::prelude::*;
use crate::block::BlockPlan;
use crate::bytes::{
    get_array, get_trimmed, get_u16, get_u32, get_u64, spec_trim_nul, spec_u16, spec_u32, spec_u64, Endian,
};
use crate::d2_shared::PackageNamedTagEntry;
use crate::error::PkgError;
use crate::package::{PackageLanguage, PackagePlatform, UEntryHeader};
use crate::table::Record;
use crate::tag::TagHash;
use crate::text::{spec_utf8_lossy, utf8_lossy};

verus! {

/// The header of an archive, stored in little-endian byte order.
#[derive(Debug)]
pub struct PackageHeader {
    /// Always 24.
    pub version: u16,
    pub platform: PackagePlatform,
    pub pkg_id: u16,
    pub _unk6: u16,
    pub _unk8: u64,
    pub build_time: u64,
    pub _unk_buildid: u32,
    pub version_major: u16,
    pub version_minor: u16,
    pub patch_id: u16,
    pub language: PackageLanguage,
    /// The name of the tool that built the archive, without padding.
    pub tool_string: String,
    pub _unka4: u32,
    pub _unka8: u32,
    pub _unkac: u32,
    pub header_signature_offset: u32,
    pub entry_table_size: u32,
    pub entry_table_offset: u32,
    pub entry_table_hash: [u8; 20],
    pub block_table_size: u32,
    pub block_table_offset: u32,
    pub block_table_hash: [u8; 20],
    pub named_tag_table_size: u32,
    pub named_tag_table_offset: u32,
    pub named_tag_table_hash: [u8; 20],
    pub file_size: u32,
}

impl PackageHeader {
    /// The number of bytes from the start of the file that the header takes.
    pub const SIZE: usize = 0x140;

    /// The version that the header must carry.
    pub const VERSION: u16 = 24;

    /// Whether the bytes start with a header of this generation: they are
    /// long enough, carry the version, and name a platform and a language.
    pub open spec fn spec_valid(s: Seq<u8>) -> bool {
        &&& s.len() >= Self::SIZE
        &&& spec_u16(s, 0, Endian::Little) == Self::VERSION
        &&& PackagePlatform::spec_from_u16(spec_u16(s, 0x2, Endian::Little)) is Some
        &&& PackageLanguage::spec_from_u16(spec_u16(s, 0x22, Endian::Little)) is Some
    }

    /// Whether `self` is the header that the bytes start with.
    pub open spec fn decodes(&self, s: Seq<u8>) -> bool {
        let e = Endian::Little;
        &&& self.version == spec_u16(s, 0, e)
        &&& Some(self.platform) == PackagePlatform::spec_from_u16(spec_u16(s, 0x2, e))
        &&& self.pkg_id == spec_u16(s, 0x4, e)
        &&& self._unk6 == spec_u16(s, 0x6, e)
        &&& self._unk8 == spec_u64(s, 0x8, e)
        &&& self.build_time == spec_u64(s, 0x10, e)
        &&& self._unk_buildid == spec_u32(s, 0x18, e)
        &&& self.version_major == spec_u16(s, 0x1c, e)
        &&& self.version_minor == spec_u16(s, 0x1e, e)
        &&& self.patch_id == spec_u16(s, 0x20, e)
        &&& Some(self.language) == PackageLanguage::spec_from_u16(spec_u16(s, 0x22, e))
        &&& self.tool_string@ == spec_utf8_lossy(spec_trim_nul(s.subrange(0x24, 0xa4)))
        &&& self._unka4 == spec_u32(s, 0xa4, e)
        &&& self._unka8 == spec_u32(s, 0xa8, e)
        &&& self._unkac == spec_u32(s, 0xac, e)
        &&& self.header_signature_offset == spec_u32(s, 0xb0, e)
        &&& self.entry_table_size == spec_u32(s, 0xb4, e)
        &&& self.entry_table_offset == spec_u32(s, 0xb8, e)
        &&& self.entry_table_hash@ == s.subrange(0xbc, 0xd0)
        &&& self.block_table_size == spec_u32(s, 0xd0, e)
        &&& self.block_table_offset == spec_u32(s, 0xd4, e)
        &&& self.block_table_hash@ == s.subrange(0xd8, 0xec)
        &&& self.named_tag_table_size == spec_u32(s, 0xec, e)
        &&& self.named_tag_table_offset == spec_u32(s, 0xf0, e)
        &&& self.named_tag_table_hash@ == s.subrange(0xf4, 0x108)
        &&& self.file_size == spec_u32(s, 0x13c, e)
    }

    /// Reads the header at the start of an archive. `HeaderInvalid` exactly
    /// when the bytes do not start with a header of this generation.
    pub fn parse(data: &[u8]) -> (r: Result<PackageHeader, PkgError>)
        ensures
            match r {
                Ok(h) => Self::spec_valid(data@) && h.decodes(data@),
                Err(e) => e == PkgError::HeaderInvalid && !Self::spec_valid(data@),
            },
    {
        if data.len() < Self::SIZE {
            return Err(PkgError::HeaderInvalid);
        }
        let e = Endian::Little;
        let version: u16 = get_u16(data, 0, e);
        if version != Self::VERSION {
            return Err(PkgError::HeaderInvalid);
        }
        let platform: PackagePlatform = match PackagePlatform::from_u16(get_u16(data, 0x2, e)) {
            Some(p) => p,
            None => {
                return Err(PkgError::HeaderInvalid);
            },
        };
        let language: PackageLanguage = match PackageLanguage::from_u16(get_u16(data, 0x22, e)) {
            Some(l) => l,
            None => {
                return Err(PkgError::HeaderInvalid);
            },
        };
        let tool: Vec<u8> = get_trimmed(data, 0x24, 128);
        Ok(
            PackageHeader {
                version,
                platform,
                pkg_id: get_u16(data, 0x4, e),
                _unk6: get_u16(data, 0x6, e),
                _unk8: get_u64(data, 0x8, e),
                build_time: get_u64(data, 0x10, e),
                _unk_buildid: get_u32(data, 0x18, e),
                version_major: get_u16(data, 0x1c, e),
                version_minor: get_u16(data, 0x1e, e),
                patch_id: get_u16(data, 0x20, e),
                language,
                tool_string: utf8_lossy(tool.as_slice()),
                _unka4: get_u32(data, 0xa4, e),
                _unka8: get_u32(data, 0xa8, e),
                _unkac: get_u32(data, 0xac, e),
                header_signature_offset: get_u32(data, 0xb0, e),
                entry_table_size: get_u32(data, 0xb4, e),
                entry_table_offset: get_u32(data, 0xb8, e),
                entry_table_hash: get_array::<20>(data, 0xbc),
                block_table_size: get_u32(data, 0xd0, e),
                block_table_offset: get_u32(data, 0xd4, e),
                block_table_hash: get_array::<20>(data, 0xd8),
                named_tag_table_size: get_u32(data, 0xec, e),
                named_tag_table_offset: get_u32(data, 0xf0, e),
                named_tag_table_hash: get_array::<20>(data, 0xf4),
                file_size: get_u32(data, 0x13c, e),
            },
        )
    }
}

/// An entry as the archives of Rise of Iron store it: the reference, then
/// the type word, then the block word.
#[derive(Clone, Copy, Debug, PartialEq, Eq, Structural)]
pub struct EntryHeader {
    pub reference: u32,
    /// The type word as stored.
    pub thing: u32,
    /// The lowest byte of the type word.
    pub file_type: u8,
    /// The highest byte of the type word.
    pub file_subtype: u8,
    /// The block word as stored.
    pub block_info: u64,
    /// Bits 0 to 13 of the block word.
    pub starting_block: u32,
    /// Bits 14 to 27 of the block word, times sixteen.
    pub starting_block_offset: u32,
    /// Bits 28 to 57 of the block word.
    pub file_size: u32,
}

impl EntryHeader {
    /// The entry whose three words are the given ones.
    pub open spec fn spec_from_words(reference: u32, thing: u32, block_info: u64) -> EntryHeader {
        EntryHeader {
            reference,
            thing,
            file_type: (thing % 0x100) as u8,
            file_subtype: (thing / 0x100_0000) as u8,
            block_info,
            starting_block: (block_info % 0x4000) as u32,
            starting_block_offset: (((block_info / 0x4000) % 0x4000) * 16) as u32,
            file_size: ((block_info / 0x1000_0000) % 0x4000_0000) as u32,
        }
    }

    /// The entry stored in the sixteen bytes from `at` on.
    pub open spec fn spec_decode(s: Seq<u8>, at: int, e: Endian) -> EntryHeader {
        Self::spec_from_words(spec_u32(s, at, e), spec_u32(s, at + 4, e), spec_u64(s, at + 8, e))
    }

    /// The entry whose three words are the given ones.
    pub fn from_words(reference: u32, thing: u32, block_info: u64) -> (r: EntryHeader)
        ensures
            r == Self::spec_from_words(reference, thing, block_info),
    {
        EntryHeader {
            reference,
            thing,
            file_type: (thing % 0x100) as u8,
            file_subtype: (thing / 0x100_0000) as u8,
            block_info,
            starting_block: (block_info % 0x4000) as u32,
            starting_block_offset: (((block_info / 0x4000) % 0x4000) * 16) as u32,
            file_size: ((block_info / 0x1000_0000) % 0x4000_0000) as u32,
        }
    }

    /// The entry in the shape that all generations share.
    pub open spec fn spec_unified(self) -> UEntryHeader {
        UEntryHeader {
            reference: self.reference,
            file_type: self.file_type,
            file_subtype: self.file_subtype,
            starting_block: self.starting_block,
            starting_block_offset: self.starting_block_offset,
            file_size: self.file_size,
        }
    }

    /// The entry in the shape that all generations share.
    pub fn unified(&self) -> (u: UEntryHeader)
        ensures
            u == self.spec_unified(),
    {
        UEntryHeader {
            reference: self.reference,
            file_type: self.file_type,
            file_subtype: self.file_subtype,
            starting_block: self.starting_block,
            starting_block_offset: self.starting_block_offset,
            file_size: self.file_size,
        }
    }
}

impl Record for EntryHeader {
    open spec fn spec_size() -> nat {
        16
    }

    open spec fn decodes(&self, s: Seq<u8>, at: int, e: Endian) -> bool {
        *self == Self::spec_decode(s, at, e)
    }

    proof fn decodes_one(a: Self, b: Self, s: Seq<u8>, at: int, e: Endian) {
    }

    fn size() -> (n: usize) {
        16
    }

    fn decode(data: &[u8], at: usize, e: Endian) -> (r: Self) {
        let _len: usize = data.len();
        EntryHeader::from_words(get_u32(data, at, e), get_u32(data, at + 4, e), get_u64(data, at + 8, e))
    }
}

/// A block as the archives of Rise of Iron store it.
#[derive(Clone, Copy, Debug)]
pub struct BlockHeader {
    /// Where the block starts in its file.
    pub offset: u32,
    /// The number of bytes that the block takes in its file.
    pub size: u32,
    /// The patch file that holds the block.
    pub patch_id: u16,
    /// Bit 0: compressed.
    pub flags: u16,
    pub hash: [u8; 20],
}

impl BlockHeader {
    /// The flag of a compressed block.
    pub const COMPRESSED: u16 = 0x1;

    /// Where the block lies and whether it is compressed.
    pub open spec fn spec_plan(self) -> BlockPlan {
        BlockPlan {
            patch_id: self.patch_id,
            offset: self.offset,
            size: self.size,
            encrypted: false,
            compressed: self.flags & Self::COMPRESSED != 0,
            flags: self.flags,
            gcm_tag: vstd::array::spec_array_fill_for_copy_type::<u8, 16>(0u8),
        }
    }

    /// Where the block lies and whether it is compressed.
    pub fn plan(&self) -> (p: BlockPlan)
        ensures
            p == self.spec_plan(),
    {
        BlockPlan {
            patch_id: self.patch_id,
            offset: self.offset,
            size: self.size,
            encrypted: false,
            compressed: (self.flags & Self::COMPRESSED) != 0,
            flags: self.flags,
            gcm_tag: [0u8; 16],
        }
    }
}

impl Record for BlockHeader {
    open spec fn spec_size() -> nat {
        32
    }

    open spec fn decodes(&self, s: Seq<u8>, at: int, e: Endian) -> bool {
        &&& self.offset == spec_u32(s, at, e)
        &&& self.size == spec_u32(s, at + 4, e)
        &&& self.patch_id == spec_u16(s, at + 8, e)
        &&& self.flags == spec_u16(s, at + 10, e)
        &&& self.hash@ == s.subrange(at + 12, at + 32)
    }

    proof fn decodes_one(a: Self, b: Self, s: Seq<u8>, at: int, e: Endian) {
        assert(a.hash =~= b.hash);
    }

    fn size() -> (n: usize) {
        32
    }

    fn decode(data: &[u8], at: usize, e: Endian) -> (r: Self) {
        let _len: usize = data.len();
        BlockHeader {
            offset: get_u32(data, at, e),
            size: get_u32(data, at + 4, e),
            patch_id: get_u16(data, at + 8, e),
            flags: get_u16(data, at + 10, e),
            hash: get_array::<20>(data, at + 12),
        }
    }
}

/// A named tag as the archives of the first title store it, with its name
/// in a field of sixty bytes.
#[derive(Clone, Copy, Debug)]
pub struct NamedTagEntryD1 {
    pub hash: TagHash,
    pub class_hash: u32,
    pub name: [u8; 60],
}

impl NamedTagEntryD1 {
    /// Whether `tag` is this named tag in the shape that all generations
    /// share: its name is the text of all sixty bytes.
    pub open spec fn spec_is_unified(&self, tag: PackageNamedTagEntry) -> bool {
        &&& tag.hash == self.hash
        &&& tag.class_hash == self.class_hash
        &&& tag.name@ == spec_utf8_lossy(self.name@)
    }

    /// The named tag in the shape that all generations share.
    pub fn unified(&self) -> (tag: PackageNamedTagEntry)
        ensures
            self.spec_is_unified(tag),
    {
        PackageNamedTagEntry {
            hash: self.hash,
            class_hash: self.class_hash,
            name: utf8_lossy(vstd::array::array_as_slice(&self.name)),
        }
    }
}

impl Record for NamedTagEntryD1 {
    open spec fn spec_size() -> nat {
        68
    }

    open spec fn decodes(&self, s: Seq<u8>, at: int, e: Endian) -> bool {
        &&& self.hash == TagHash(spec_u32(s, at, e))
        &&& self.class_hash == spec_u32(s, at + 4, e)
        &&& self.name@ == s.subrange(at + 8, at + 68)
    }

    proof fn decodes_one(a: Self, b: Self, s: Seq<u8>, at: int, e: Endian) {
        assert(a.name =~= b.name);
    }

    fn size() -> (n: usize) {
        68
    }

    fn decode(data: &[u8], at: usize, e: Endian) -> (r: Self) {
        let _len: usize = data.len();
        NamedTagEntryD1 {
            hash: TagHash(get_u32(data, at, e)),
            class_hash: get_u32(data, at + 4, e),
            name: get_array::<60>(data, at + 8),
        }
    }
}

/// Whether `tags` holds the named tags of `stored`, one for one, in the
/// shape that all generations share.
pub open spec fn spec_unified_named_tags(stored: Seq<NamedTagEntryD1>, tags: Seq<PackageNamedTagEntry>) -> bool {
    &&& tags.len() == stored.len()
    &&& forall|i: int| 0 <= i < stored.len() ==> (#[trigger] stored[i]).spec_is_unified(tags[i])
}

/// Projects named tags into the shape that all generations share.
pub fn unified_named_tags(stored: &Vec<NamedTagEntryD1>) -> (tags: Vec<PackageNamedTagEntry>)
    ensures
        spec_unified_named_tags(stored@, tags@),
{
    let mut tags: Vec<PackageNamedTagEntry> = Vec::new();
    let mut i: usize = 0;
    while i < stored.len()
        invariant
            i <= stored@.len(),
            spec_unified_named_tags(stored@.subrange(0, i as int), tags@),
        decreases stored.len() - i,
    {
        let ghost before = tags@;
        tags.push(stored[i].unified());
        proof {
            let head = stored@.subrange(0, i + 1);
            assert forall|k: int| 0 <= k < head.len() implies (#[trigger] head[k]).spec_is_unified(tags@[k]) by {
                if k < i {
                    assert(head[k] == stored@.subrange(0, i as int)[k]);
                    assert(tags@[k] == before[k]);
                }
            }
        }
        i = i + 1;
    }
    proof {
        assert(stored@.subrange(0, stored@.len() as int) =~= stored@);
    }
    tags
}

} // verus!
