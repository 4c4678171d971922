//! What every archive reader offers, whatever its generation: the unified
//! entry record, language and platform, and the reconstruction of an entry
//! from its blocks.

use std::sync::Arc;
use vstd::prelude::*;
use vstd::slice::slice_subrange;
use vstd::string::StringExecFns;
use crate::bytes::Endian;
use crate::d2_shared::PackageNamedTagEntry;
use crate::error::PkgError;
use crate::block::spec_shared_view;
use crate::oodle::{spec_codec, spec_result_view, CodecOutcome, OodleVersion};
use crate::tag::{spec_tag_entry_index, spec_tag_pkg_id, TagHash};
use crate::text::{decimal, spec_decimal};

verus! {

/// The greatest number of decoded blocks that a reader keeps.
pub const BLOCK_CACHE_SIZE: usize = 32;

/// An entry of an archive, in the shape that all generations share.
#[derive(Clone, Copy, Debug, PartialEq, Eq, Structural)]
pub struct UEntryHeader {
    /// Cross-reference to the content type.
    pub reference: u32,
    pub file_type: u8,
    pub file_subtype: u8,
    /// Index of the block in which the entry starts.
    pub starting_block: u32,
    /// Offset of the entry's first byte in its first block, decoded.
    pub starting_block_offset: u32,
    /// Length of the entry in bytes.
    pub file_size: u32,
}

/// A row of an archive's 64-bit alias table.
#[derive(Clone, Copy, Debug, PartialEq, Eq, Structural)]
pub struct UHashTableEntry {
    pub hash64: u64,
    pub hash32: TagHash,
    pub reference: TagHash,
}

/// The language that an archive is localised for.
#[derive(Clone, Copy, Debug, PartialEq, Eq, Structural)]
pub enum PackageLanguage {
    /// No particular language.
    Neutral,
    English,
    French,
    Italian,
    German,
    Spanish,
    Japanese,
    Portuguese,
    Russian,
    Polish,
    SimplifiedChinese,
    TraditionalChinese,
    SpanishLatAm,
    Korean,
}

impl PackageLanguage {
    /// The language with the given number in a header.
    pub open spec fn spec_from_u16(v: u16) -> Option<PackageLanguage> {
        if v == 0 {
            Some(PackageLanguage::Neutral)
        } else if v == 1 {
            Some(PackageLanguage::English)
        } else if v == 2 {
            Some(PackageLanguage::French)
        } else if v == 3 {
            Some(PackageLanguage::Italian)
        } else if v == 4 {
            Some(PackageLanguage::German)
        } else if v == 5 {
            Some(PackageLanguage::Spanish)
        } else if v == 6 {
            Some(PackageLanguage::Japanese)
        } else if v == 7 {
            Some(PackageLanguage::Portuguese)
        } else if v == 8 {
            Some(PackageLanguage::Russian)
        } else if v == 9 {
            Some(PackageLanguage::Polish)
        } else if v == 10 {
            Some(PackageLanguage::SimplifiedChinese)
        } else if v == 11 {
            Some(PackageLanguage::TraditionalChinese)
        } else if v == 12 {
            Some(PackageLanguage::SpanishLatAm)
        } else if v == 13 {
            Some(PackageLanguage::Korean)
        } else {
            None
        }
    }

    /// Reads a language from its number in a header.
    pub fn from_u16(v: u16) -> (r: Option<PackageLanguage>)
        ensures
            r == Self::spec_from_u16(v),
    {
        match v {
            0 => Some(PackageLanguage::Neutral),
            1 => Some(PackageLanguage::English),
            2 => Some(PackageLanguage::French),
            3 => Some(PackageLanguage::Italian),
            4 => Some(PackageLanguage::German),
            5 => Some(PackageLanguage::Spanish),
            6 => Some(PackageLanguage::Japanese),
            7 => Some(PackageLanguage::Portuguese),
            8 => Some(PackageLanguage::Russian),
            9 => Some(PackageLanguage::Polish),
            10 => Some(PackageLanguage::SimplifiedChinese),
            11 => Some(PackageLanguage::TraditionalChinese),
            12 => Some(PackageLanguage::SpanishLatAm),
            13 => Some(PackageLanguage::Korean),
            _ => None,
        }
    }

    /// Whether the archive is in English or in no particular language.
    pub fn english_or_none(&self) -> (b: bool)
        ensures
            b == (*self == PackageLanguage::Neutral || *self == PackageLanguage::English),
    {
        match self {
            PackageLanguage::Neutral => true,
            PackageLanguage::English => true,
            _ => false,
        }
    }
}

/// The platform that an archive was built for.
#[derive(Clone, Copy, Debug, PartialEq, Eq, Structural)]
pub enum PackagePlatform {
    Tool32,
    Win32,
    Win64,
    X360,
    PS3,
    Tool64,
    Win64v1,
    PS4,
    XboxOne,
    Stadia,
    PS5,
    Scarlett,
}

impl PackagePlatform {
    /// The platform with the given number in a header.
    pub open spec fn spec_from_u16(v: u16) -> Option<PackagePlatform> {
        if v == 0 {
            Some(PackagePlatform::Tool32)
        } else if v == 1 {
            Some(PackagePlatform::Win32)
        } else if v == 2 {
            Some(PackagePlatform::Win64)
        } else if v == 3 {
            Some(PackagePlatform::X360)
        } else if v == 4 {
            Some(PackagePlatform::PS3)
        } else if v == 5 {
            Some(PackagePlatform::Tool64)
        } else if v == 6 {
            Some(PackagePlatform::Win64v1)
        } else if v == 7 {
            Some(PackagePlatform::PS4)
        } else if v == 8 {
            Some(PackagePlatform::XboxOne)
        } else if v == 9 {
            Some(PackagePlatform::Stadia)
        } else if v == 10 {
            Some(PackagePlatform::PS5)
        } else if v == 11 {
            Some(PackagePlatform::Scarlett)
        } else {
            None
        }
    }

    /// Reads a platform from its number in a header.
    pub fn from_u16(v: u16) -> (r: Option<PackagePlatform>)
        ensures
            r == Self::spec_from_u16(v),
    {
        match v {
            0 => Some(PackagePlatform::Tool32),
            1 => Some(PackagePlatform::Win32),
            2 => Some(PackagePlatform::Win64),
            3 => Some(PackagePlatform::X360),
            4 => Some(PackagePlatform::PS3),
            5 => Some(PackagePlatform::Tool64),
            6 => Some(PackagePlatform::Win64v1),
            7 => Some(PackagePlatform::PS4),
            8 => Some(PackagePlatform::XboxOne),
            9 => Some(PackagePlatform::Stadia),
            10 => Some(PackagePlatform::PS5),
            11 => Some(PackagePlatform::Scarlett),
            _ => None,
        }
    }

    /// The byte order of the platform: big on the two oldest consoles,
    /// little elsewhere.
    pub fn endianness(&self) -> (e: Endian)
        ensures
            e == if *self == PackagePlatform::PS3 || *self == PackagePlatform::X360 {
                Endian::Big
            } else {
                Endian::Little
            },
    {
        match self {
            PackagePlatform::PS3 => Endian::Big,
            PackagePlatform::X360 => Endian::Big,
            _ => Endian::Little,
        }
    }

    /// The short name of the platform, as archive file names carry it.
    pub open spec fn spec_name(self) -> Seq<char> {
        match self {
            PackagePlatform::Tool32 => "tool32"@,
            PackagePlatform::Win32 => "w32"@,
            PackagePlatform::Win64 => "w64"@,
            PackagePlatform::X360 => "360"@,
            PackagePlatform::PS3 => "ps3"@,
            PackagePlatform::Tool64 => "tool64"@,
            PackagePlatform::Win64v1 => "w64"@,
            PackagePlatform::PS4 => "ps4"@,
            PackagePlatform::XboxOne => "xboxone"@,
            PackagePlatform::Stadia => "stadia"@,
            PackagePlatform::PS5 => "ps5"@,
            PackagePlatform::Scarlett => "scarlett"@,
        }
    }

    /// The short name of the platform.
    pub fn name(&self) -> (s: &'static str)
        ensures
            s@ == self.spec_name(),
    {
        match self {
            PackagePlatform::Tool32 => "tool32",
            PackagePlatform::Win32 => "w32",
            PackagePlatform::Win64 => "w64",
            PackagePlatform::X360 => "360",
            PackagePlatform::PS3 => "ps3",
            PackagePlatform::Tool64 => "tool64",
            PackagePlatform::Win64v1 => "w64",
            PackagePlatform::PS4 => "ps4",
            PackagePlatform::XboxOne => "xboxone",
            PackagePlatform::Stadia => "stadia",
            PackagePlatform::PS5 => "ps5",
            PackagePlatform::Scarlett => "scarlett",
        }
    }

    /// The short name of the platform, as an owned string.
    pub fn to_string(&self) -> (s: String)
        ensures
            s@ == self.spec_name(),
    {
        String::from_str(self.name())
    }

    /// The platform that a short name in a file name stands for. Only the
    /// five platforms that archives are read for have one.
    pub open spec fn spec_parse(s: Seq<char>) -> Option<PackagePlatform> {
        if s == "ps3"@ {
            Some(PackagePlatform::PS3)
        } else if s == "ps4"@ {
            Some(PackagePlatform::PS4)
        } else if s == "360"@ {
            Some(PackagePlatform::X360)
        } else if s == "w64"@ {
            Some(PackagePlatform::Win64)
        } else if s == "xboxone"@ {
            Some(PackagePlatform::XboxOne)
        } else {
            None
        }
    }

    /// Reads a platform from its short name.
    pub fn parse(s: &str) -> (r: Option<PackagePlatform>)
        ensures
            r == Self::spec_parse(s@),
    {
        if str_equal(s, "ps3") {
            Some(PackagePlatform::PS3)
        } else if str_equal(s, "ps4") {
            Some(PackagePlatform::PS4)
        } else if str_equal(s, "360") {
            Some(PackagePlatform::X360)
        } else if str_equal(s, "w64") {
            Some(PackagePlatform::Win64)
        } else if str_equal(s, "xboxone") {
            Some(PackagePlatform::XboxOne)
        } else {
            None
        }
    }
}

impl std::str::FromStr for PackagePlatform {
    type Err = PkgError;

    /// Reads a platform from its short name; `Unimplemented` for any other
    /// text.
    fn from_str(s: &str) -> (r: Result<PackagePlatform, PkgError>)
        ensures
            r == match PackagePlatform::spec_parse(s@) {
                Some(p) => Ok::<PackagePlatform, PkgError>(p),
                None => Err(PkgError::Unimplemented),
            },
    {
        match PackagePlatform::parse(s) {
            Some(p) => Ok(p),
            None => Err(PkgError::Unimplemented),
        }
    }
}

/// Whether two texts are the same.
pub fn str_equal(a: &str, b: &str) -> (r: bool)
    ensures
        r == (a@ == b@),
{
    let x: String = String::from_str(a);
    let y: String = String::from_str(b);
    x == y
}

/// The file extension for an entry of the generations just before Beyond
/// Light, from its type and subtype.
pub open spec fn spec_classify_file_prebl(ftype: u8, fsubtype: u8) -> Seq<char> {
    if ftype == 26 && fsubtype == 5 {
        "bnk"@
    } else if ftype == 26 && fsubtype == 6 {
        "wem"@
    } else if ftype == 26 && fsubtype == 7 {
        "hkx"@
    } else if ftype == 27 {
        "usm"@
    } else if ftype == 32 && fsubtype == 1 {
        "texture.header"@
    } else if ftype == 32 && fsubtype == 2 {
        "texture_cube.header"@
    } else if ftype == 32 && fsubtype == 4 {
        "vertex.header"@
    } else if ftype == 32 && fsubtype == 6 {
        "index.header"@
    } else if ftype == 40 && fsubtype == 4 {
        "vertex.data"@
    } else if ftype == 40 && fsubtype == 6 {
        "index.data"@
    } else if ftype == 48 && fsubtype == 1 {
        "texture.data"@
    } else if ftype == 48 && fsubtype == 2 {
        "texture_cube.data"@
    } else if ftype == 41 {
        "cso."@ + (if fsubtype == 0 {
            "fragment"@
        } else if fsubtype == 1 {
            "vertex"@
        } else if fsubtype == 6 {
            "compute"@
        } else {
            "unk"@ + spec_decimal(fsubtype as nat)
        })
    } else if ftype == 8 {
        "8080"@
    } else {
        "bin"@
    }
}

/// Names the file extension for an entry of the generations just before
/// Beyond Light.
pub fn classify_file_prebl(ftype: u8, fsubtype: u8) -> (ext: String)
    ensures
        ext@ == spec_classify_file_prebl(ftype, fsubtype),
{
    if ftype == 26 && fsubtype == 5 {
        String::from_str("bnk")
    } else if ftype == 26 && fsubtype == 6 {
        String::from_str("wem")
    } else if ftype == 26 && fsubtype == 7 {
        String::from_str("hkx")
    } else if ftype == 27 {
        String::from_str("usm")
    } else if ftype == 32 && fsubtype == 1 {
        String::from_str("texture.header")
    } else if ftype == 32 && fsubtype == 2 {
        String::from_str("texture_cube.header")
    } else if ftype == 32 && fsubtype == 4 {
        String::from_str("vertex.header")
    } else if ftype == 32 && fsubtype == 6 {
        String::from_str("index.header")
    } else if ftype == 40 && fsubtype == 4 {
        String::from_str("vertex.data")
    } else if ftype == 40 && fsubtype == 6 {
        String::from_str("index.data")
    } else if ftype == 48 && fsubtype == 1 {
        String::from_str("texture.data")
    } else if ftype == 48 && fsubtype == 2 {
        String::from_str("texture_cube.data")
    } else if ftype == 41 {
        let mut ext = String::from_str("cso.");
        if fsubtype == 0 {
            ext.append("fragment");
        } else if fsubtype == 1 {
            ext.append("vertex");
        } else if fsubtype == 6 {
            ext.append("compute");
        } else {
            ext.append("unk");
            let digits = decimal(fsubtype as u64);
            ext.append(digits.as_str());
            assert(ext@ =~= "cso."@ + ("unk"@ + spec_decimal(fsubtype as nat)));
        }
        ext
    } else if ftype == 8 {
        String::from_str("8080")
    } else {
        String::from_str("bin")
    }
}

/// The given blocks, one after the other.
pub open spec fn spec_join(blocks: Seq<Seq<u8>>) -> Seq<u8>
    decreases blocks.len(),
{
    if blocks.len() == 0 {
        Seq::empty()
    } else {
        spec_join(blocks.drop_last()) + blocks.last()
    }
}

/// What the given blocks, which start at the entry's first block, hold of
/// an entry of `size` bytes that starts `offset` bytes into the first.
pub open spec fn spec_entry_part(offset: int, size: int, blocks: Seq<Seq<u8>>) -> Seq<u8> {
    let all = spec_join(blocks);
    let end = if offset + size <= all.len() {
        offset + size
    } else {
        all.len() as int
    };
    if offset <= end {
        all.subrange(offset, end)
    } else {
        Seq::empty()
    }
}

/// The entries among the first `n` that satisfy `pred`, each with its
/// index, in the order of the table.
pub open spec fn spec_matching(entries: Seq<UEntryHeader>, n: int, pred: spec_fn(UEntryHeader) -> bool) -> Seq<
    (usize, UEntryHeader),
>
    decreases n,
{
    if n <= 0 {
        Seq::empty()
    } else {
        let rest = spec_matching(entries, n - 1, pred);
        if pred(entries[n - 1]) {
            rest.push(((n - 1) as usize, entries[n - 1]))
        } else {
            rest
        }
    }
}

/// Whether an entry has the given type and, when one is given, subtype.
pub open spec fn spec_has_type(e: UEntryHeader, etype: u8, esubtype: Option<u8>) -> bool {
    e.file_type == etype && (esubtype matches Some(t) ==> t == e.file_subtype)
}

/// Appends to `buffer` what `block` holds from `skip` on, but no more than
/// `want` bytes, and tells how many bytes that were.
pub fn append_from_block(buffer: &mut Vec<u8>, block: &[u8], skip: usize, want: usize) -> (copied: usize)
    requires
        skip <= block@.len(),
    ensures
        copied == if block@.len() - skip < want {
            block@.len() - skip
        } else {
            want as int
        },
        final(buffer)@ == old(buffer)@ + block@.subrange(skip as int, skip + copied),
{
    let available: usize = block.len() - skip;
    let copied: usize = if available < want {
        available
    } else {
        want
    };
    buffer.extend_from_slice(slice_subrange(block, skip, skip + copied));
    copied
}

/// Appends to `buffer`, which holds the bytes of an entry that were read so
/// far, what `block` holds of the entry, and tells how many bytes that
/// were. The entry has `size` bytes and starts `offset` bytes into its first
/// block; every later block continues it from the block's start.
///
/// `TableOutOfBounds` when the first block ends before the entry starts.
pub fn take_from_block(buffer: &mut Vec<u8>, block: &[u8], first: bool, offset: usize, size: usize) -> (r: Result<
    usize,
    PkgError,
>)
    requires
        old(buffer)@.len() < size,
    ensures
        r is Err <==> first && offset > block@.len(),
        r matches Err(e) ==> e == PkgError::TableOutOfBounds && final(buffer)@ == old(buffer)@,
        r matches Ok(copied) ==> {
            let skip: int = if first {
                offset as int
            } else {
                0
            };
            &&& copied == if block@.len() - skip < size - old(buffer)@.len() {
                block@.len() - skip
            } else {
                size - old(buffer)@.len()
            }
            &&& final(buffer)@ == old(buffer)@ + block@.subrange(skip, skip + copied)
        },
{
    let skip: usize = if first {
        if offset > block.len() {
            return Err(PkgError::TableOutOfBounds);
        }
        offset
    } else {
        0
    };
    let want: usize = size - buffer.len();
    Ok(append_from_block(buffer, block, skip, want))
}

/// Whether `blocks` are what requests for the blocks `first`, `first + 1`
/// and so on gave, one after the other, as `answer` tells it of the reader
/// before a request, the reader after it, the block's index and what the
/// request gave. `states` holds the reader before the first request and
/// after each.
pub open spec fn spec_requests<P>(
    answer: spec_fn(P, P, usize, Result<Seq<u8>, PkgError>) -> bool,
    first: u32,
    states: Seq<P>,
    blocks: Seq<Seq<u8>>,
) -> bool {
    &&& states.len() == blocks.len() + 1
    &&& first + blocks.len() <= u32::MAX + 1
    &&& forall|k: int|
        0 <= k < blocks.len() ==> answer(
            states[k],
            states[k + 1],
            (first + k) as usize,
            Ok(#[trigger] blocks[k]),
        )
}

/// Whether the entry goes on after `blocks`, the first blocks of it: the
/// entry starts inside the first of them, and all of them end before the
/// entry does.
pub open spec fn spec_goes_on(entry: UEntryHeader, blocks: Seq<Seq<u8>>) -> bool {
    &&& blocks.len() > 0 ==> entry.starting_block_offset <= blocks[0].len()
    &&& spec_join(blocks).len() < entry.starting_block_offset + entry.file_size
}

/// How the reading of an entry ends after the requests that gave `blocks`.
/// The last of these requests was made because the entry went on after the
/// blocks before it.
///
/// The bytes of the entry are given when it ends inside the last block.
/// `TableOutOfBounds` is given when the first block ends before the entry
/// starts, and when the entry goes on after the block with the greatest
/// index there is. Else the entry goes on and the next block is asked for;
/// that request fails, and its error is given.
pub open spec fn spec_entry_end<P>(
    answer: spec_fn(P, P, usize, Result<Seq<u8>, PkgError>) -> bool,
    entry: UEntryHeader,
    states: Seq<P>,
    blocks: Seq<Seq<u8>>,
    after: P,
    r: Result<Seq<u8>, PkgError>,
) -> bool {
    let n = blocks.len() as int;
    &&& n > 0 ==> spec_goes_on(entry, blocks.drop_last())
    &&& match r {
        Ok(data) => {
            &&& after == states[n]
            &&& spec_spans(entry, blocks)
            &&& data == spec_join(blocks).subrange(
                entry.starting_block_offset as int,
                entry.starting_block_offset + entry.file_size,
            )
        },
        Err(e) => {
            ||| {
                &&& spec_goes_on(entry, blocks)
                &&& entry.starting_block + n <= u32::MAX
                &&& answer(states[n], after, (entry.starting_block + n) as usize, Err(e))
            }
            ||| {
                &&& after == states[n]
                &&& e == PkgError::TableOutOfBounds
                &&& n == 1
                &&& entry.starting_block_offset > blocks[0].len()
            }
            ||| {
                &&& after == states[n]
                &&& e == PkgError::TableOutOfBounds
                &&& n > 0
                &&& spec_goes_on(entry, blocks)
                &&& entry.starting_block + n > u32::MAX
            }
        },
    }
}

/// Whether reading `entry` from the reader `before` can have left the
/// reader `after` and given `r`, where `answer` tells what a request for a
/// block can give.
///
/// An entry without bytes is read without any request. For any other entry
/// the blocks from its first block on are asked for in turn, each once,
/// until the entry ends in one of them or the reading fails.
pub open spec fn spec_entry_read<P>(
    answer: spec_fn(P, P, usize, Result<Seq<u8>, PkgError>) -> bool,
    entry: UEntryHeader,
    before: P,
    after: P,
    r: Result<Seq<u8>, PkgError>,
) -> bool {
    if entry.file_size == 0 {
        r == Ok::<Seq<u8>, PkgError>(Seq::empty()) && after == before
    } else {
        exists|states: Seq<P>, blocks: Seq<Seq<u8>>| #[trigger]
            spec_requests(answer, entry.starting_block, states, blocks) && states[0] == before && spec_entry_end(
                answer,
                entry,
                states,
                blocks,
                after,
                r,
            )
    }
}

/// Blocks laid end to end are at least as long as the first of them.
pub proof fn lemma_join_first(blocks: Seq<Seq<u8>>)
    requires
        blocks.len() > 0,
    ensures
        spec_join(blocks).len() >= blocks[0].len(),
    decreases blocks.len(),
{
    if blocks.len() == 1 {
        assert(spec_join(blocks.drop_last()) =~= Seq::<u8>::empty());
    } else {
        lemma_join_first(blocks.drop_last());
    }
}

/// Every one of `blocks` can be a decoded block of an archive, as
/// `is_block` tells it of an index and bytes, the first being block `first`,
/// the others following it.
pub open spec fn spec_are_blocks(
    is_block: spec_fn(usize, Seq<u8>) -> bool,
    first: u32,
    blocks: Seq<Seq<u8>>,
) -> bool {
    &&& first + blocks.len() <= u32::MAX + 1
    &&& forall|k: int| 0 <= k < blocks.len() ==> is_block((first + k) as usize, #[trigger] blocks[k])
}

/// Whether `data` can be the bytes of `entry`: the range that starts
/// `starting_block_offset` bytes into the entry's first block and is
/// `file_size` bytes long, taken from the decoded blocks laid end to end
/// from the first block up to the one in which the entry ends. An entry of
/// no bytes takes no block.
pub open spec fn spec_is_entry(
    is_block: spec_fn(usize, Seq<u8>) -> bool,
    entry: UEntryHeader,
    data: Seq<u8>,
) -> bool {
    if entry.file_size == 0 {
        data.len() == 0
    } else {
        exists|blocks: Seq<Seq<u8>>| #[trigger]
            spec_are_blocks(is_block, entry.starting_block, blocks) && spec_spans(entry, blocks) && data
                == spec_join(blocks).subrange(
                entry.starting_block_offset as int,
                entry.starting_block_offset + entry.file_size,
            )
    }
}

/// The entry starts in the first of `blocks` and ends in the last.
pub open spec fn spec_spans(entry: UEntryHeader, blocks: Seq<Seq<u8>>) -> bool {
    &&& blocks.len() > 0
    &&& entry.starting_block_offset <= blocks[0].len()
    &&& spec_join(blocks.drop_last()).len() < entry.starting_block_offset + entry.file_size
    &&& entry.starting_block_offset + entry.file_size <= spec_join(blocks).len()
}

/// The first `n` of some blocks, laid end to end, are the start of all of
/// them laid end to end.
pub proof fn lemma_join_prefix(blocks: Seq<Seq<u8>>, n: int)
    requires
        0 <= n <= blocks.len(),
    ensures
        spec_join(blocks.subrange(0, n)).len() <= spec_join(blocks).len(),
        spec_join(blocks.subrange(0, n)) == spec_join(blocks).subrange(
            0,
            spec_join(blocks.subrange(0, n)).len() as int,
        ),
    decreases blocks.len() - n,
{
    if n == blocks.len() {
        assert(blocks.subrange(0, n) =~= blocks);
        assert(spec_join(blocks) =~= spec_join(blocks).subrange(0, spec_join(blocks).len() as int));
    } else {
        lemma_join_prefix(blocks.drop_last(), n);
        assert(blocks.drop_last().subrange(0, n) =~= blocks.subrange(0, n));
        let head = spec_join(blocks.subrange(0, n));
        assert(spec_join(blocks) == spec_join(blocks.drop_last()) + blocks.last());
        assert(head =~= spec_join(blocks).subrange(0, head.len() as int));
    }
}

/// Through the first `k` of a run of requests the readers keep what `keeps`
/// says of them, and the blocks that were given are those of `data`.
pub proof fn lemma_requests_keep<P>(
    answer: spec_fn(P, P, usize, Result<Seq<u8>, PkgError>) -> bool,
    keeps: spec_fn(P) -> bool,
    first: u32,
    data: Seq<Seq<u8>>,
    states: Seq<P>,
    blocks: Seq<Seq<u8>>,
    k: int,
)
    requires
        spec_requests(answer, first, states, blocks),
        keeps(states[0]),
        0 <= k <= blocks.len(),
        k <= data.len(),
        first + data.len() <= u32::MAX + 1,
        forall|a: P, b: P, i: usize, x: Result<Seq<u8>, PkgError>|
            keeps(a) && first <= i < first + data.len() && #[trigger] answer(a, b, i, x) ==> x == Ok::<
                Seq<u8>,
                PkgError,
            >(data[i - first]) && keeps(b),
    ensures
        keeps(states[k]),
        forall|j: int| 0 <= j < k ==> blocks[j] == data[j],
    decreases k,
{
    if k > 0 {
        lemma_requests_keep(answer, keeps, first, data, states, blocks, k - 1);
        assert(answer(states[k - 1], states[k], (first + (k - 1)) as usize, Ok(blocks[k - 1])));
    }
}

/// An entry whose blocks are had is read. Let `keeps` hold of the reader
/// before the reading, and let every request for one of the blocks from the
/// entry's first block on, put to a reader of which `keeps` holds, give the
/// block of `data` and leave a reader of which `keeps` holds. When the
/// entry starts inside the first of these blocks and ends inside them, its
/// reading gives the bytes of its range over the blocks laid end to end,
/// and `keeps` holds of the reader afterwards.
///
/// With a `keeps` that says which blocks the reader holds, this is the
/// second reading of an entry: it gives the bytes of the first and loads no
/// block again.
pub proof fn entry_is_read_from_its_blocks<P>(
    answer: spec_fn(P, P, usize, Result<Seq<u8>, PkgError>) -> bool,
    keeps: spec_fn(P) -> bool,
    entry: UEntryHeader,
    data: Seq<Seq<u8>>,
    before: P,
    after: P,
    r: Result<Seq<u8>, PkgError>,
)
    requires
        entry.file_size > 0,
        data.len() > 0,
        entry.starting_block + data.len() <= u32::MAX + 1,
        entry.starting_block_offset <= data[0].len(),
        entry.starting_block_offset + entry.file_size <= spec_join(data).len(),
        keeps(before),
        forall|a: P, b: P, i: usize, x: Result<Seq<u8>, PkgError>|
            keeps(a) && entry.starting_block <= i < entry.starting_block + data.len() && #[trigger] answer(
                a,
                b,
                i,
                x,
            ) ==> x == Ok::<Seq<u8>, PkgError>(data[i - entry.starting_block]) && keeps(b),
        spec_entry_read(answer, entry, before, after, r),
    ensures
        r == Ok::<Seq<u8>, PkgError>(
            spec_join(data).subrange(
                entry.starting_block_offset as int,
                entry.starting_block_offset + entry.file_size,
            ),
        ),
        keeps(after),
{
    let start = entry.starting_block as int;
    let offset = entry.starting_block_offset as int;
    let end = entry.starting_block_offset + entry.file_size;
    let (states, blocks) = choose|states: Seq<P>, blocks: Seq<Seq<u8>>| #[trigger]
        spec_requests(answer, entry.starting_block, states, blocks) && states[0] == before && spec_entry_end(
            answer,
            entry,
            states,
            blocks,
            after,
            r,
        );
    let n = blocks.len() as int;
    let m = data.len() as int;
    if n > m {
        lemma_requests_keep(answer, keeps, entry.starting_block, data, states, blocks, m);
        let head = blocks.drop_last();
        lemma_join_prefix(head, m);
        assert(head.subrange(0, m) =~= data);
        assert(false);
    }
    lemma_requests_keep(answer, keeps, entry.starting_block, data, states, blocks, n);
    assert(blocks =~= data.subrange(0, n));
    lemma_join_prefix(data, n);
    if n == m {
        assert(data.subrange(0, n) =~= data);
    }
    match r {
        Ok(d) => {
            assert(d =~= spec_join(data).subrange(offset, end));
        },
        Err(e) => {
            if spec_goes_on(entry, blocks) && start + n <= u32::MAX && answer(
                states[n],
                after,
                (start + n) as usize,
                Err(e),
            ) {
                assert(n < m);
                assert(false);
            }
            assert(false);
        },
    }
}

/// Where every block of an archive has one decoding only, every entry has
/// one reading only: two readings of an entry give the same bytes.
pub proof fn entry_bytes_are_determined(
    is_block: spec_fn(usize, Seq<u8>) -> bool,
    entry: UEntryHeader,
    a: Seq<u8>,
    b: Seq<u8>,
)
    requires
        forall|i: usize, x: Seq<u8>, y: Seq<u8>| #[trigger] is_block(i, x) && #[trigger] is_block(i, y) ==> x == y,
        spec_is_entry(is_block, entry, a),
        spec_is_entry(is_block, entry, b),
    ensures
        a == b,
{
    if entry.file_size == 0 {
        assert(a =~= b);
    } else {
        let start = entry.starting_block_offset as int;
        let end = entry.starting_block_offset + entry.file_size;
        let ba = choose|blocks: Seq<Seq<u8>>| #[trigger]
            spec_are_blocks(is_block, entry.starting_block, blocks) && spec_spans(entry, blocks) && a
                == spec_join(blocks).subrange(start, end);
        let bb = choose|blocks: Seq<Seq<u8>>| #[trigger]
            spec_are_blocks(is_block, entry.starting_block, blocks) && spec_spans(entry, blocks) && b
                == spec_join(blocks).subrange(start, end);
        assert forall|k: int| 0 <= k < ba.len() && k < bb.len() implies ba[k] == bb[k] by {
            assert(is_block((entry.starting_block + k) as usize, ba[k]));
            assert(is_block((entry.starting_block + k) as usize, bb[k]));
        }
        if ba.len() < bb.len() {
            let head = bb.drop_last();
            assert(head.subrange(0, ba.len() as int) =~= ba);
            lemma_join_prefix(head, ba.len() as int);
        } else if bb.len() < ba.len() {
            let head = ba.drop_last();
            assert(head.subrange(0, bb.len() as int) =~= bb);
            lemma_join_prefix(head, bb.len() as int);
        }
        assert(ba =~= bb);
    }
}

/// What the readers of all generations offer.
pub trait Package: Sized {
    /// What the reader keeps true of itself.
    spec fn wf(&self) -> bool;

    /// The entries of the archive.
    spec fn spec_entries(&self) -> Seq<UEntryHeader>;

    /// The id of the archive.
    spec fn spec_pkg_id(&self) -> u16;

    /// Whether `data` can be the decoded block `index` of the archive.
    spec fn spec_is_block(&self, index: usize, data: Seq<u8>) -> bool;

    /// The patch level of the archive's own file.
    spec fn spec_patch_id(&self) -> u16;

    /// The language of the archive.
    spec fn spec_language(&self) -> PackageLanguage;

    /// The platform of the archive.
    spec fn spec_platform(&self) -> PackagePlatform;

    /// The byte order of the archive's tables.
    spec fn spec_endianness(&self) -> Endian;

    /// The archive's table of 64-bit aliases.
    spec fn spec_hash64_table(&self) -> Seq<UHashTableEntry>;

    /// The named tags of the archive.
    spec fn spec_named_tags(&self) -> Seq<PackageNamedTagEntry>;

    /// Whether a request for block `index`, put to the reader `before`, can
    /// have left the reader `after` and given `r`.
    spec fn spec_block_request(
        before: Self,
        after: Self,
        index: usize,
        gave: spec_fn(OodleVersion, Seq<u8>, Result<Seq<u8>, PkgError>) -> bool,
        r: Result<Seq<u8>, PkgError>,
    ) -> bool;

    /// The byte order of the archive's tables.
    fn endianness(&self) -> (e: Endian)
        ensures
            e == self.spec_endianness(),
    ;

    fn pkg_id(&self) -> (id: u16)
        ensures
            id == self.spec_pkg_id(),
    ;

    fn patch_id(&self) -> (id: u16)
        ensures
            id == self.spec_patch_id(),
    ;

    /// The archive's table of 64-bit aliases; empty in the first title.
    fn hash64_table(&self) -> (r: Vec<UHashTableEntry>)
        ensures
            r@ == self.spec_hash64_table(),
    ;

    /// The named tags of the archive.
    fn named_tags(&self) -> (r: Vec<PackageNamedTagEntry>)
        ensures
            r@ == self.spec_named_tags(),
    ;

    /// The entries of the archive.
    fn entries(&self) -> (r: &[UEntryHeader])
        ensures
            r@ == self.spec_entries(),
    ;

    /// The entry with the given index, when there is one.
    fn entry(&self, index: usize) -> (r: Option<UEntryHeader>)
        ensures
            r == if index < self.spec_entries().len() {
                Some(self.spec_entries()[index as int])
            } else {
                None
            },
    ;

    fn language(&self) -> (l: PackageLanguage)
        ensures
            l == self.spec_language(),
    ;

    fn platform(&self) -> (p: PackagePlatform)
        ensures
            p == self.spec_platform(),
    ;

    /// The decoded block with the given index. The reader may keep decoded
    /// blocks; nothing else about it changes.
    fn get_block<C>(&mut self, index: usize, codec: &C) -> (r: Result<Arc<Vec<u8>>, PkgError>) where
        C: Fn(OodleVersion, &Vec<u8>) -> CodecOutcome,

        requires
            old(self).wf(),
            forall|v: OodleVersion, input: &Vec<u8>| (*codec).requires((v, input)),
        ensures
            final(self).wf(),
            final(self).spec_entries() == old(self).spec_entries(),
            final(self).spec_pkg_id() == old(self).spec_pkg_id(),
            final(self).spec_patch_id() == old(self).spec_patch_id(),
            final(self).spec_language() == old(self).spec_language(),
            final(self).spec_platform() == old(self).spec_platform(),
            final(self).spec_endianness() == old(self).spec_endianness(),
            final(self).spec_hash64_table() == old(self).spec_hash64_table(),
            final(self).spec_named_tags() == old(self).spec_named_tags(),
            forall|i: usize, d: Seq<u8>| final(self).spec_is_block(i, d) == old(self).spec_is_block(i, d),
            r matches Ok(block) ==> final(self).spec_is_block(index, block@),
            Self::spec_block_request(*old(self), *final(self), index, spec_codec(codec), spec_shared_view(r)),
    ;

    /// Reads the bytes of the entry with the given index, block by block:
    /// the blocks from the entry's first block on are asked for in turn
    /// until the entry ends in one of them.
    ///
    /// An index past the table gives `TableOutOfBounds`, and so do a first
    /// block that ends before the entry starts and an entry that goes on
    /// after the block with the greatest index there is. The error of a
    /// request for a block is handed on. Nothing else fails: an entry whose
    /// blocks are had is read, and an entry without bytes needs no block.
    fn read_entry<C>(&mut self, index: usize, codec: &C) -> (r: Result<Vec<u8>, PkgError>) where
        C: Fn(OodleVersion, &Vec<u8>) -> CodecOutcome,

        requires
            old(self).wf(),
            forall|v: OodleVersion, input: &Vec<u8>| (*codec).requires((v, input)),
        ensures
            final(self).wf(),
            final(self).spec_entries() == old(self).spec_entries(),
            final(self).spec_pkg_id() == old(self).spec_pkg_id(),
            final(self).spec_patch_id() == old(self).spec_patch_id(),
            final(self).spec_language() == old(self).spec_language(),
            final(self).spec_platform() == old(self).spec_platform(),
            final(self).spec_endianness() == old(self).spec_endianness(),
            final(self).spec_hash64_table() == old(self).spec_hash64_table(),
            final(self).spec_named_tags() == old(self).spec_named_tags(),
            forall|i: usize, d: Seq<u8>| final(self).spec_is_block(i, d) == old(self).spec_is_block(i, d),
            index >= old(self).spec_entries().len() ==> r == Err::<Vec<u8>, PkgError>(
                PkgError::TableOutOfBounds,
            ) && *final(self) == *old(self),
            index < old(self).spec_entries().len() ==> spec_entry_read(
                |a: Self, b: Self, i: usize, x: Result<Seq<u8>, PkgError>|
                    Self::spec_block_request(a, b, i, spec_codec(codec), x),
                old(self).spec_entries()[index as int],
                *old(self),
                *final(self),
                spec_result_view(r),
            ),
            r matches Ok(data) ==> {
                &&& index < old(self).spec_entries().len()
                &&& data@.len() == old(self).spec_entries()[index as int].file_size
                &&& spec_is_entry(
                    |i: usize, d: Seq<u8>| old(self).spec_is_block(i, d),
                    old(self).spec_entries()[index as int],
                    data@,
                )
            },
    {
        let entry: UEntryHeader = match self.entry(index) {
            Some(e) => e,
            None => {
                return Err(PkgError::TableOutOfBounds);
            },
        };
        let size: usize = entry.file_size as usize;
        let offset: usize = entry.starting_block_offset as usize;
        let mut buffer: Vec<u8> = Vec::new();
        let mut current_block: u32 = entry.starting_block;
        let mut first: bool = true;
        let ghost mut blocks: Seq<Seq<u8>> = Seq::empty();
        let ghost mut states: Seq<Self> = seq![*self];
        let ghost is_block = |i: usize, d: Seq<u8>| old(self).spec_is_block(i, d);
        let ghost answer = |a: Self, b: Self, i: usize, x: Result<Seq<u8>, PkgError>|
            Self::spec_block_request(a, b, i, spec_codec(codec), x);
        proof {
            assert(spec_join(blocks) =~= Seq::<u8>::empty());
        }
        while buffer.len() < size
            invariant
                self.wf(),
                self.spec_entries() == old(self).spec_entries(),
                self.spec_pkg_id() == old(self).spec_pkg_id(),
                self.spec_patch_id() == old(self).spec_patch_id(),
                self.spec_language() == old(self).spec_language(),
                self.spec_platform() == old(self).spec_platform(),
                self.spec_endianness() == old(self).spec_endianness(),
                self.spec_hash64_table() == old(self).spec_hash64_table(),
                self.spec_named_tags() == old(self).spec_named_tags(),
                forall|i: usize, d: Seq<u8>| self.spec_is_block(i, d) == old(self).spec_is_block(i, d),
                forall|v: OodleVersion, input: &Vec<u8>| (*codec).requires((v, input)),
                index < old(self).spec_entries().len(),
                entry == old(self).spec_entries()[index as int],
                size == entry.file_size,
                offset == entry.starting_block_offset,
                first == (blocks.len() == 0),
                buffer@.len() < size ==> current_block == entry.starting_block + blocks.len(),
                spec_are_blocks(is_block, entry.starting_block, blocks),
                is_block == (|i: usize, d: Seq<u8>| old(self).spec_is_block(i, d)),
                answer == (|a: Self, b: Self, i: usize, x: Result<Seq<u8>, PkgError>|
                    Self::spec_block_request(a, b, i, spec_codec(codec), x)),
                spec_requests(answer, entry.starting_block, states, blocks),
                states[0] == *old(self),
                states[blocks.len() as int] == *self,
                blocks.len() > 0 ==> offset <= blocks[0].len(),
                blocks.len() > 0 ==> spec_join(blocks.drop_last()).len() < offset + size,
                blocks.len() > 0 ==> size > 0,
                buffer@.len() <= size,
                buffer@ == spec_entry_part(offset as int, size as int, blocks),
            decreases size - buffer.len(), u32::MAX - current_block,
        {
            proof {
                if blocks.len() > 0 {
                    lemma_join_first(blocks);
                    assert(blocks.drop_last().len() > 0 ==> blocks.drop_last()[0] == blocks[0]);
                }
                assert(spec_goes_on(entry, blocks));
            }
            let block: Arc<Vec<u8>> = match self.get_block(current_block as usize, codec) {
                Ok(b) => b,
                Err(e) => {
                    proof {
                        assert(answer(
                            states[blocks.len() as int],
                            *self,
                            (entry.starting_block + blocks.len()) as usize,
                            Err(e),
                        ));
                        assert(spec_entry_end(answer, entry, states, blocks, *self, Err(e)));
                    }
                    return Err(e);
                },
            };
            let ghost old_blocks = blocks;
            let ghost old_states = states;
            let ghost old_buffer = buffer@;
            proof {
                blocks = old_blocks.push(block@);
                states = old_states.push(*self);
                assert(blocks.drop_last() =~= old_blocks);
                assert(answer(
                    old_states[old_blocks.len() as int],
                    *self,
                    (entry.starting_block + old_blocks.len()) as usize,
                    Ok(block@),
                ));
                assert forall|k: int| 0 <= k < blocks.len() implies answer(
                    states[k],
                    states[k + 1],
                    (entry.starting_block + k) as usize,
                    Ok(#[trigger] blocks[k]),
                ) by {
                    if k < old_blocks.len() {
                        assert(blocks[k] == old_blocks[k]);
                        assert(states[k] == old_states[k]);
                        assert(states[k + 1] == old_states[k + 1]);
                        assert(answer(
                            old_states[k],
                            old_states[k + 1],
                            (entry.starting_block + k) as usize,
                            Ok(old_blocks[k]),
                        ));
                    }
                }
                assert(spec_requests(answer, entry.starting_block, states, blocks));
            }
            let copied: usize = match take_from_block(&mut buffer, block.as_slice(), first, offset, size) {
                Ok(n) => n,
                Err(e) => {
                    proof {
                        assert(spec_entry_end(answer, entry, states, blocks, *self, Err(e)));
                    }
                    return Err(e);
                },
            };
            proof {
                let all_old = spec_join(old_blocks);
                let all = spec_join(blocks);
                assert(all == all_old + block@);
                assert forall|k: int| 0 <= k < blocks.len() implies is_block(
                    (entry.starting_block + k) as usize,
                    #[trigger] blocks[k],
                ) by {
                    if k < old_blocks.len() {
                        assert(blocks[k] == old_blocks[k]);
                        assert(is_block((entry.starting_block + k) as usize, old_blocks[k]));
                    } else {
                        assert(self.spec_is_block(current_block as usize, block@));
                    }
                }
                if old_blocks.len() == 0 {
                    assert(all_old =~= Seq::<u8>::empty());
                    assert(all =~= block@);
                    assert(buffer@ =~= spec_entry_part(offset as int, size as int, blocks));
                } else {
                    assert(blocks[0] == old_blocks[0]);
                    lemma_join_first(old_blocks);
                    assert(old_buffer == all_old.subrange(offset as int, all_old.len() as int));
                    assert(buffer@ =~= spec_entry_part(offset as int, size as int, blocks));
                }
            }
            first = false;
            if buffer.len() < size {
                if current_block == u32::MAX {
                    proof {
                        lemma_join_first(blocks);
                        assert(spec_goes_on(entry, blocks));
                        assert(spec_entry_end(
                            answer,
                            entry,
                            states,
                            blocks,
                            *self,
                            Err(PkgError::TableOutOfBounds),
                        ));
                    }
                    return Err(PkgError::TableOutOfBounds);
                }
                current_block = current_block + 1;
            }
        }
        proof {
            if size > 0 {
                assert(blocks.len() > 0);
                assert(spec_spans(entry, blocks));
                assert(spec_is_entry(is_block, entry, buffer@));
                assert(blocks.drop_last().len() > 0 ==> blocks.drop_last()[0] == blocks[0]);
                assert(spec_goes_on(entry, blocks.drop_last()));
                assert(buffer@ =~= spec_join(blocks).subrange(offset as int, offset + size));
                assert(spec_entry_end(answer, entry, states, blocks, *self, Ok(buffer@)));
                assert(spec_entry_read(answer, entry, *old(self), *self, Ok(buffer@)));
            } else {
                assert(buffer@ =~= Seq::<u8>::empty());
                assert(blocks.len() == 0);
                assert(spec_entry_read(answer, entry, *old(self), *self, Ok(buffer@)));
            }
        }
        Ok(buffer)
    }

    /// Reads the bytes of the entry that `tag` names. The tag must name an
    /// entry of this archive, else the answer is `NotFound`.
    fn read_tag<C>(&mut self, tag: TagHash, codec: &C) -> (r: Result<Vec<u8>, PkgError>) where
        C: Fn(OodleVersion, &Vec<u8>) -> CodecOutcome,

        requires
            old(self).wf(),
            forall|v: OodleVersion, input: &Vec<u8>| (*codec).requires((v, input)),
        ensures
            final(self).wf(),
            final(self).spec_entries() == old(self).spec_entries(),
            final(self).spec_pkg_id() == old(self).spec_pkg_id(),
            final(self).spec_patch_id() == old(self).spec_patch_id(),
            final(self).spec_language() == old(self).spec_language(),
            final(self).spec_platform() == old(self).spec_platform(),
            final(self).spec_endianness() == old(self).spec_endianness(),
            final(self).spec_hash64_table() == old(self).spec_hash64_table(),
            final(self).spec_named_tags() == old(self).spec_named_tags(),
            forall|i: usize, d: Seq<u8>| final(self).spec_is_block(i, d) == old(self).spec_is_block(i, d),
            spec_tag_pkg_id(tag.0) != old(self).spec_pkg_id() ==> r == Err::<Vec<u8>, PkgError>(
                PkgError::NotFound,
            ) && *final(self) == *old(self),
            spec_tag_pkg_id(tag.0) == old(self).spec_pkg_id() && spec_tag_entry_index(tag.0) >= old(
                self,
            ).spec_entries().len() ==> r == Err::<Vec<u8>, PkgError>(PkgError::TableOutOfBounds) && *final(self)
                == *old(self),
            spec_tag_pkg_id(tag.0) == old(self).spec_pkg_id() && spec_tag_entry_index(tag.0) < old(
                self,
            ).spec_entries().len() ==> spec_entry_read(
                |a: Self, b: Self, i: usize, x: Result<Seq<u8>, PkgError>|
                    Self::spec_block_request(a, b, i, spec_codec(codec), x),
                old(self).spec_entries()[spec_tag_entry_index(tag.0) as int],
                *old(self),
                *final(self),
                spec_result_view(r),
            ),
            r matches Ok(data) ==> {
                let index = spec_tag_entry_index(tag.0) as int;
                &&& spec_tag_pkg_id(tag.0) == old(self).spec_pkg_id()
                &&& index < old(self).spec_entries().len()
                &&& data@.len() == old(self).spec_entries()[index].file_size
                &&& spec_is_entry(
                    |i: usize, d: Seq<u8>| old(self).spec_is_block(i, d),
                    old(self).spec_entries()[index],
                    data@,
                )
            },
    {
        if tag.pkg_id() != self.pkg_id() {
            return Err(PkgError::NotFound);
        }
        self.read_entry(tag.entry_index() as usize, codec)
    }

    /// The entries with the given reference, each with its index, in the
    /// order of the table.
    fn get_all_by_reference(&self, reference: u32) -> (r: Vec<(usize, UEntryHeader)>)
        ensures
            r@ == spec_matching(
                self.spec_entries(),
                self.spec_entries().len() as int,
                |e: UEntryHeader| e.reference == reference,
            ),
    {
        let entries: &[UEntryHeader] = self.entries();
        let ghost pred = |e: UEntryHeader| e.reference == reference;
        let mut out: Vec<(usize, UEntryHeader)> = Vec::new();
        let mut i: usize = 0;
        while i < entries.len()
            invariant
                i <= entries@.len(),
                entries@ == self.spec_entries(),
                pred == (|e: UEntryHeader| e.reference == reference),
                out@ == spec_matching(entries@, i as int, pred),
            decreases entries.len() - i,
        {
            if entries[i].reference == reference {
                out.push((i, entries[i]));
            }
            i = i + 1;
        }
        out
    }

    /// The entries with the given type and, when one is given, subtype, each
    /// with its index, in the order of the table.
    fn get_all_by_type(&self, etype: u8, esubtype: Option<u8>) -> (r: Vec<(usize, UEntryHeader)>)
        ensures
            r@ == spec_matching(
                self.spec_entries(),
                self.spec_entries().len() as int,
                |e: UEntryHeader| spec_has_type(e, etype, esubtype),
            ),
    {
        let entries: &[UEntryHeader] = self.entries();
        let ghost pred = |e: UEntryHeader| spec_has_type(e, etype, esubtype);
        let mut out: Vec<(usize, UEntryHeader)> = Vec::new();
        let mut i: usize = 0;
        while i < entries.len()
            invariant
                i <= entries@.len(),
                entries@ == self.spec_entries(),
                pred == (|e: UEntryHeader| spec_has_type(e, etype, esubtype)),
                out@ == spec_matching(entries@, i as int, pred),
            decreases entries.len() - i,
        {
            let subtype_fits: bool = match esubtype {
                Some(t) => t == entries[i].file_subtype,
                None => true,
            };
            if entries[i].file_type == etype && subtype_fits {
                out.push((i, entries[i]));
            }
            i = i + 1;
        }
        out
    }
}

} // verus!
