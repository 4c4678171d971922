//! 32-bit tags, which name an entry by archive id and entry index, and their
//! 64-bit aliases.

use vstd::prelude::*;
use vstd::string::StringSliceAdditionalSpecFns;
use crate::text::{hex_fixed, parse_unsigned, spec_hex_fixed, spec_parse_unsigned};

verus! {

/// The tag value before the archive id and entry index are added.
pub const TAG_BASE: u32 = 0x8080_0000;

/// The greatest tag value that is valid.
pub const TAG_LAST: u32 = 0x81ff_ffff;

/// The value of the tag that names nothing.
pub const TAG_NONE: u32 = 0xffff_ffff;

/// The number of entry indices that a tag can tell apart.
pub const ENTRIES_PER_PACKAGE: u32 = 8192;

/// The tag of entry `entry mod 8192` of archive `pkg_id`.
pub open spec fn spec_tag_new(pkg_id: u16, entry: u16) -> u32 {
    (TAG_BASE + pkg_id * ENTRIES_PER_PACKAGE + entry % 8192) as u32
}

/// The archive id that a tag carries: the tag minus the base, in 32-bit
/// wrapping arithmetic, without its low thirteen bits, cut to sixteen bits.
pub open spec fn spec_tag_pkg_id(tag: u32) -> u16 {
    let d: int = if tag >= TAG_BASE {
        tag - TAG_BASE
    } else {
        tag + 0x1_0000_0000 - TAG_BASE
    };
    ((d / 8192) % 0x1_0000) as u16
}

/// The entry index that a tag carries: its low thirteen bits.
pub open spec fn spec_tag_entry_index(tag: u32) -> u16 {
    (tag % 8192) as u16
}

/// A tag is valid when it lies above the base and at most at the last value.
pub open spec fn spec_tag_is_valid(tag: u32) -> bool {
    TAG_BASE < tag <= TAG_LAST
}

/// A valid tag whose archive id lies in the range that archives on disk use.
pub open spec fn spec_tag_is_pkg_file(tag: u32) -> bool {
    tag != TAG_NONE && spec_tag_is_valid(tag) && 0x9 <= spec_tag_pkg_id(tag) < 0xa00
}

/// The four bytes of `v` in reverse order.
pub open spec fn spec_swap_bytes_u32(v: u32) -> u32 {
    ((v % 0x100) * 0x100_0000 + ((v / 0x100) % 0x100) * 0x1_0000 + ((v / 0x1_0000) % 0x100) * 0x100
        + v / 0x100_0000) as u32
}

/// The eight bytes of `v` in reverse order.
pub open spec fn spec_swap_bytes_u64(v: u64) -> u64 {
    (spec_swap_bytes_u32((v % 0x1_0000_0000) as u32) * 0x1_0000_0000 + spec_swap_bytes_u32(
        (v / 0x1_0000_0000) as u32,
    )) as u64
}

/// Reverses the bytes of a 32-bit value.
pub fn swap_bytes_u32(v: u32) -> (r: u32)
    ensures
        r == spec_swap_bytes_u32(v),
{
    (v % 0x100) * 0x100_0000 + ((v / 0x100) % 0x100) * 0x1_0000 + ((v / 0x1_0000) % 0x100) * 0x100 + v
        / 0x100_0000
}

/// Reverses the bytes of a 64-bit value.
pub fn swap_bytes_u64(v: u64) -> (r: u64)
    ensures
        r == spec_swap_bytes_u64(v),
{
    let lo: u32 = swap_bytes_u32((v % 0x1_0000_0000) as u32);
    let hi: u32 = swap_bytes_u32((v / 0x1_0000_0000) as u32);
    (lo as u64) * 0x1_0000_0000 + hi as u64
}

/// How a tag is written as text: most significant byte first, or with its
/// bytes reversed as some tools expect it.
#[derive(Clone, Copy, Debug, PartialEq, Eq, Structural)]
pub enum TagFormat {
    Plain,
    Flipped,
}

/// Why a text is not a tag.
#[derive(Clone, Copy, Debug, PartialEq, Eq, Structural)]
pub enum TagParseError {
    /// The text is not a hexadecimal number that fits the tag's width.
    InvalidNumber,
}

/// A 32-bit handle for one entry of one archive.
#[derive(Clone, Copy, Debug, PartialEq, Eq, Structural, PartialOrd, Ord, Hash)]
pub struct TagHash(pub u32);

impl TagHash {
    /// The tag that names nothing.
    pub fn none() -> (t: TagHash)
        ensures
            t.0 == TAG_NONE,
    {
        TagHash(TAG_NONE)
    }

    /// The tag of entry `entry mod 8192` of archive `pkg_id`.
    pub fn new(pkg_id: u16, entry: u16) -> (t: TagHash)
        ensures
            t.0 == spec_tag_new(pkg_id, entry),
    {
        TagHash(TAG_BASE + (pkg_id as u32) * ENTRIES_PER_PACKAGE + (entry as u32) % 8192)
    }

    /// Whether the tag lies in the range of valid tags.
    pub fn is_valid(&self) -> (b: bool)
        ensures
            b == spec_tag_is_valid(self.0),
    {
        self.0 > TAG_BASE && self.0 <= TAG_LAST
    }

    /// Whether this is the tag that names nothing.
    pub fn is_none(&self) -> (b: bool)
        ensures
            b == (self.0 == TAG_NONE),
    {
        self.0 == TAG_NONE
    }

    /// Whether the tag names something: it is not `NONE` and it is valid.
    pub fn is_some(&self) -> (b: bool)
        ensures
            b == (self.0 != TAG_NONE && spec_tag_is_valid(self.0)),
    {
        !self.is_none() && self.is_valid()
    }

    /// Whether the tag looks like one of an archive on disk.
    pub fn is_pkg_file(&self) -> (b: bool)
        ensures
            b == spec_tag_is_pkg_file(self.0),
    {
        let id: u16 = self.pkg_id();
        self.is_some() && 0x9 <= id && id < 0xa00
    }

    /// The archive id that the tag carries.
    pub fn pkg_id(&self) -> (id: u16)
        ensures
            id == spec_tag_pkg_id(self.0),
    {
        let d: u32 = if self.0 >= TAG_BASE {
            self.0 - TAG_BASE
        } else {
            self.0 + 0x7f80_0000
        };
        ((d / 8192) % 0x1_0000) as u16
    }

    /// The entry index that the tag carries.
    pub fn entry_index(&self) -> (index: u16)
        ensures
            index == spec_tag_entry_index(self.0),
            index < 8192,
    {
        (self.0 % 8192) as u16
    }

    /// Reads a tag from hexadecimal digits in the given format.
    pub fn parse(s: &str, format: TagFormat) -> (r: Option<TagHash>)
        ensures
            r == match spec_parse_unsigned(s.spec_bytes(), 16, 0xffff_ffff) {
                Some(v) => Some(
                    TagHash(
                        match format {
                            TagFormat::Plain => v as u32,
                            TagFormat::Flipped => spec_swap_bytes_u32(v as u32),
                        },
                    ),
                ),
                None => None,
            },
    {
        match parse_unsigned(s.as_bytes(), 16, 0xffff_ffff) {
            Some(v) => {
                let raw: u32 = v as u32;
                match format {
                    TagFormat::Plain => Some(TagHash(raw)),
                    TagFormat::Flipped => Some(TagHash(swap_bytes_u32(raw))),
                }
            },
            None => None,
        }
    }

    /// The tag as eight upper-case hexadecimal digits in the given format.
    pub fn format(&self, format: TagFormat) -> (s: String)
        ensures
            s@ == spec_hex_fixed(
                match format {
                    TagFormat::Plain => self.0 as int,
                    TagFormat::Flipped => spec_swap_bytes_u32(self.0) as int,
                },
                8,
            ),
    {
        match format {
            TagFormat::Plain => hex_fixed(self.0 as u64, 8),
            TagFormat::Flipped => hex_fixed(swap_bytes_u32(self.0) as u64, 8),
        }
    }

    /// The tag as eight upper-case hexadecimal digits, most significant
    /// first.
    pub fn to_string(&self) -> (s: String)
        ensures
            s@ == spec_hex_fixed(self.0 as int, 8),
    {
        self.format(TagFormat::Plain)
    }
}

impl Default for TagHash {
    fn default() -> (t: TagHash)
        ensures
            t.0 == TAG_NONE,
    {
        TagHash::none()
    }
}

impl From<u32> for TagHash {
    fn from(value: u32) -> (t: TagHash) {
        TagHash(value)
    }
}

impl vstd::std_specs::convert::FromSpecImpl<u32> for TagHash {
    open spec fn obeys_from_spec() -> bool {
        true
    }

    open spec fn from_spec(value: u32) -> TagHash {
        TagHash(value)
    }
}

impl From<TagHash> for u32 {
    fn from(value: TagHash) -> (v: u32) {
        value.0
    }
}

impl vstd::std_specs::convert::FromSpecImpl<TagHash> for u32 {
    open spec fn obeys_from_spec() -> bool {
        true
    }

    open spec fn from_spec(value: TagHash) -> u32 {
        value.0
    }
}

impl From<(u16, u16)> for TagHash {
    fn from(value: (u16, u16)) -> (t: TagHash) {
        TagHash::new(value.0, value.1)
    }
}

impl vstd::std_specs::convert::FromSpecImpl<(u16, u16)> for TagHash {
    open spec fn obeys_from_spec() -> bool {
        true
    }

    open spec fn from_spec(value: (u16, u16)) -> TagHash {
        TagHash(spec_tag_new(value.0, value.1))
    }
}

impl std::str::FromStr for TagHash {
    type Err = TagParseError;

    /// Reads a tag from its hexadecimal digits, in the plain order of bytes.
    fn from_str(s: &str) -> (r: Result<TagHash, TagParseError>)
        ensures
            r == match spec_parse_unsigned(s.spec_bytes(), 16, 0xffff_ffff) {
                Some(v) => Ok::<TagHash, TagParseError>(TagHash(v as u32)),
                None => Err(TagParseError::InvalidNumber),
            },
    {
        match TagHash::parse(s, TagFormat::Plain) {
            Some(t) => Ok(t),
            None => Err(TagParseError::InvalidNumber),
        }
    }
}

/// A tag made by `new` gives back the archive id it was made from, and the
/// entry index too when that is below 8192.
pub proof fn tag_new_round_trip(pkg_id: u16, entry_index: u16)
    requires
        entry_index < 8192,
    ensures
        spec_tag_pkg_id(spec_tag_new(pkg_id, entry_index)) == pkg_id,
        spec_tag_entry_index(spec_tag_new(pkg_id, entry_index)) == entry_index,
{
}

/// Whatever the entry index, the tag carries the archive id and the index
/// reduced modulo 8192.
pub proof fn tag_new_reduces_index(pkg_id: u16, entry: u16)
    ensures
        spec_tag_pkg_id(spec_tag_new(pkg_id, entry)) == pkg_id,
        spec_tag_entry_index(spec_tag_new(pkg_id, entry)) == entry % 8192,
{
}

/// The tag that names nothing is not valid; every value above the base and
/// up to the last valid value is.
pub proof fn tag_validity(tag: u32)
    ensures
        !spec_tag_is_valid(TAG_NONE),
        0x8080_0000 < tag <= 0x81ff_ffff ==> spec_tag_is_valid(tag),
{
}

impl From<u64> for TagHash64 {
    fn from(value: u64) -> (t: TagHash64) {
        TagHash64(value)
    }
}

impl vstd::std_specs::convert::FromSpecImpl<u64> for TagHash64 {
    open spec fn obeys_from_spec() -> bool {
        true
    }

    open spec fn from_spec(value: u64) -> TagHash64 {
        TagHash64(value)
    }
}

impl From<TagHash64> for u64 {
    fn from(value: TagHash64) -> (v: u64) {
        value.0
    }
}

impl vstd::std_specs::convert::FromSpecImpl<TagHash64> for u64 {
    open spec fn obeys_from_spec() -> bool {
        true
    }

    open spec fn from_spec(value: TagHash64) -> u64 {
        value.0
    }
}

/// A 64-bit alias of a tag.
#[derive(Clone, Copy, Debug, PartialEq, Eq, Structural, PartialOrd, Ord, Hash)]
pub struct TagHash64(pub u64);

impl TagHash64 {
    /// The alias that names nothing.
    pub fn none() -> (t: TagHash64)
        ensures
            t.0 == 0,
    {
        TagHash64(0)
    }

    /// The alias as sixteen upper-case hexadecimal digits in the given
    /// format.
    pub fn format(&self, format: TagFormat) -> (s: String)
        ensures
            s@ == spec_hex_fixed(
                match format {
                    TagFormat::Plain => self.0 as int,
                    TagFormat::Flipped => spec_swap_bytes_u64(self.0) as int,
                },
                16,
            ),
    {
        match format {
            TagFormat::Plain => hex_fixed(self.0, 16),
            TagFormat::Flipped => hex_fixed(swap_bytes_u64(self.0), 16),
        }
    }

    /// The alias as sixteen upper-case hexadecimal digits, most significant
    /// first.
    pub fn to_string(&self) -> (s: String)
        ensures
            s@ == spec_hex_fixed(self.0 as int, 16),
    {
        self.format(TagFormat::Plain)
    }
}

impl Default for TagHash64 {
    fn default() -> (t: TagHash64)
        ensures
            t.0 == 0,
    {
        TagHash64::none()
    }
}

} // verus!
