//! From a block's place in the block table to its decoded bytes: the bytes
//! as stored in a patch file, opened when the block is encrypted, and
//! handed to the codec when it is compressed.

use std::collections::HashMap;
use std::sync::Arc;
use vstd::prelude::*;
use vstd::slice::{slice_subrange, slice_to_vec};
use crate::block_cache::{spec_cached, spec_insert, BlockCache, CacheView};
use crate::crypto::PkgGcmState;
use crate::error::PkgError;
use crate::oodle::{decompress_3, decompress_9, CodecOutcome, OodleVersion, BLOCK_SIZE};

pub use crate::oodle::{spec_codec, spec_codec_gave, spec_result_view};

verus! {

broadcast use vstd::std_specs::hash::group_hash_axioms;

/// The patch files of an archive that have been made available: the image
/// of each by its patch id.
pub type FilesView = Map<u16, Seq<u8>>;

/// The image kept for patch `patch_id`.
pub open spec fn spec_image(files: FilesView, patch_id: u16) -> Option<Seq<u8>> {
    if files.contains_key(patch_id) {
        Some(files[patch_id])
    } else {
        None
    }
}

/// The files of an archive of which only its own file is available.
pub open spec fn spec_one_file(patch_id: u16, image: Seq<u8>) -> FilesView {
    Map::<u16, Seq<u8>>::empty().insert(patch_id, image)
}

/// The files after the image of patch `patch_id` was made available: an
/// image that is kept for the id stays the one kept.
pub open spec fn spec_file_added(files: FilesView, patch_id: u16, image: Seq<u8>) -> FilesView {
    if files.contains_key(patch_id) {
        files
    } else {
        files.insert(patch_id, image)
    }
}

/// An image that is kept stays the one kept when another is made available.
pub proof fn lemma_image_push(files: FilesView, patch_id: u16, added: (u16, Seq<u8>))
    ensures
        spec_image(files, patch_id) is Some ==> spec_image(spec_file_added(files, added.0, added.1), patch_id)
            == spec_image(files, patch_id),
        spec_image(files, patch_id) is None ==> spec_image(spec_file_added(files, added.0, added.1), patch_id)
            == if added.0 == patch_id {
            Some(added.1)
        } else {
            None
        },
{
}

/// The patch files of one archive, kept once they have been made available.
pub struct FileHandles {
    files: HashMap<u16, Vec<u8>>,
}

impl FileHandles {
    /// The images that are kept, by patch id.
    pub closed spec fn view(&self) -> FilesView {
        Map::new(|k: u16| self.files@.contains_key(k), |k: u16| self.files@[k]@)
    }

    /// The handles of an archive whose own file has the given patch id and
    /// image.
    pub fn new(patch_id: u16, data: Vec<u8>) -> (f: FileHandles)
        ensures
            f@ == spec_one_file(patch_id, data@),
    {
        let mut files: HashMap<u16, Vec<u8>> = HashMap::new();
        files.insert(patch_id, data);
        let f = FileHandles { files };
        assert(f@ =~= spec_one_file(patch_id, data@));
        f
    }

    /// Makes the image of another patch file available. An image already
    /// kept for its id stays the one that is read.
    pub fn insert(&mut self, patch_id: u16, data: Vec<u8>)
        ensures
            final(self)@ == spec_file_added(old(self)@, patch_id, data@),
    {
        let ghost before = self@;
        if !self.files.contains_key(&patch_id) {
            self.files.insert(patch_id, data);
        }
        assert(self@ =~= spec_file_added(before, patch_id, data@));
    }

    /// Whether the image of patch `patch_id` is kept.
    pub fn contains(&self, patch_id: u16) -> (b: bool)
        ensures
            b == spec_image(self@, patch_id).is_some(),
    {
        self.files.contains_key(&patch_id)
    }

    /// Copies `size` bytes at `offset` of the image of patch `patch_id`.
    pub fn read_exact(&self, patch_id: u16, offset: u32, size: u32) -> (r: Result<Vec<u8>, PkgError>)
        ensures
            match r {
                Ok(v) => spec_stored(self@, patch_id, offset, size) == Ok::<Seq<u8>, PkgError>(v@),
                Err(e) => spec_stored(self@, patch_id, offset, size) == Err::<Seq<u8>, PkgError>(e),
            },
    {
        match self.files.get(&patch_id) {
            None => Err(PkgError::SiblingMissing(patch_id)),
            Some(image) => {
                let len: usize = image.len();
                let start: u64 = offset as u64;
                let end: u64 = start + size as u64;
                if end > len as u64 {
                    return Err(PkgError::TableOutOfBounds);
                }
                Ok(slice_to_vec(slice_subrange(image.as_slice(), start as usize, end as usize)))
            },
        }
    }
}

/// The bytes of a block as its patch file stores them. `SiblingMissing`
/// when the patch file has not been made available, `TableOutOfBounds` when
/// the block reaches past its end.
pub open spec fn spec_stored(files: FilesView, patch_id: u16, offset: u32, size: u32) -> Result<
    Seq<u8>,
    PkgError,
> {
    match spec_image(files, patch_id) {
        None => Err(PkgError::SiblingMissing(patch_id)),
        Some(image) => if offset + size <= image.len() {
            Ok(image.subrange(offset as int, offset + size))
        } else {
            Err(PkgError::TableOutOfBounds)
        },
    }
}

/// A block that lies in a patch file is read from the image of that file:
/// its bytes are those at the block's offset there, whatever the archive's
/// own file holds at that place.
pub proof fn patch_block_comes_from_its_file(
    files: FilesView,
    patch_id: u16,
    offset: u32,
    size: u32,
    image: Seq<u8>,
)
    requires
        spec_image(files, patch_id) == Some(image),
        offset + size <= image.len(),
    ensures
        spec_stored(files, patch_id, offset, size) == Ok::<Seq<u8>, PkgError>(
            image.subrange(offset as int, offset + size),
        ),
{
}

/// Where a block lies and what has to be done to it.
#[derive(Clone, Copy, Debug)]
pub struct BlockPlan {
    /// The patch file that holds the block.
    pub patch_id: u16,
    pub offset: u32,
    pub size: u32,
    /// Whether the block has to be opened.
    pub encrypted: bool,
    /// Whether the block has to be handed to the codec.
    pub compressed: bool,
    /// The flags by which the key is chosen.
    pub flags: u16,
    pub gcm_tag: [u8; 16],
}

/// The number of bytes of a decoded block: a full block when it is
/// compressed, else what is stored.
pub open spec fn spec_block_len(plan: BlockPlan) -> int {
    if plan.compressed {
        BLOCK_SIZE as int
    } else {
        plan.size as int
    }
}

/// The bytes of a block before the codec: as stored, opened when the block
/// is encrypted. An encrypted block of an archive without key state cannot
/// be opened.
pub open spec fn spec_plain(files: FilesView, gcm: Option<PkgGcmState>, plan: BlockPlan) -> Result<
    Seq<u8>,
    PkgError,
> {
    match spec_stored(files, plan.patch_id, plan.offset, plan.size) {
        Err(e) => Err(e),
        Ok(raw) => if plan.encrypted {
            match gcm {
                Some(g) => g.spec_decrypt(plan.flags, plan.gcm_tag@, raw),
                None => Err(PkgError::DecryptFailed),
            }
        } else {
            Ok(raw)
        },
    }
}

/// Whether `data` can be the decoded block of `plan`: the plain bytes when
/// the block is not compressed, else a full block that the codec gave for
/// them.
pub open spec fn spec_is_decoded(files: FilesView, gcm: Option<PkgGcmState>, plan: BlockPlan, data: Seq<u8>) -> bool {
    match spec_plain(files, gcm, plan) {
        Err(_) => false,
        Ok(plain) => if plan.compressed {
            data.len() == BLOCK_SIZE
        } else {
            data == plain
        },
    }
}

/// Reads a block: its stored bytes, opened when it is encrypted, and run
/// through the codec when it is compressed. The first step that fails gives
/// the error.
pub fn load_block<C>(
    files: &FileHandles,
    gcm: Option<&PkgGcmState>,
    plan: &BlockPlan,
    version: OodleVersion,
    codec: &C,
) -> (r: Result<Vec<u8>, PkgError>) where C: Fn(OodleVersion, &Vec<u8>) -> CodecOutcome
    requires
        forall|v: OodleVersion, input: &Vec<u8>| (*codec).requires((v, input)),
    ensures
        match spec_plain(files@, spec_keys_of(gcm), *plan) {
            Err(e) => r == Err::<Vec<u8>, PkgError>(e),
            Ok(plain) => if plan.compressed {
                spec_codec_gave(codec, version, plain, spec_result_view(r))
            } else {
                spec_result_view(r) == Ok::<Seq<u8>, PkgError>(plain)
            },
        },
        r matches Ok(v) ==> v@.len() == spec_block_len(*plan) && spec_is_decoded(
            files@,
            spec_keys_of(gcm),
            *plan,
            v@,
        ),
{
    let mut data: Vec<u8> = match files.read_exact(plan.patch_id, plan.offset, plan.size) {
        Ok(v) => v,
        Err(e) => {
            return Err(e);
        },
    };
    if plan.encrypted {
        match gcm {
            Some(g) => {
                match g.decrypt_block_in_place(plan.flags, &plan.gcm_tag, &mut data) {
                    Ok(()) => {},
                    Err(e) => {
                        return Err(e);
                    },
                }
            },
            None => {
                return Err(PkgError::DecryptFailed);
            },
        }
    }
    if plan.compressed {
        match version {
            OodleVersion::V3 => decompress_3(codec, &data),
            OodleVersion::V9 => decompress_9(codec, &data),
        }
    } else {
        Ok(data)
    }
}

/// The key state behind a reference that may be there.
pub open spec fn spec_keys_of(gcm: Option<&PkgGcmState>) -> Option<PkgGcmState> {
    match gcm {
        Some(g) => Some(*g),
        None => None,
    }
}

/// Whether `data` can be the decoded block `index` of an archive with the
/// given files, key state and blocks.
pub open spec fn spec_is_block(
    files: FilesView,
    gcm: Option<PkgGcmState>,
    plans: Seq<BlockPlan>,
    index: usize,
    data: Seq<u8>,
) -> bool {
    index < plans.len() && spec_is_decoded(files, gcm, plans[index as int], data)
}

/// Whether a cache holds decoded blocks of the archive only.
pub open spec fn spec_holds_blocks(
    cache: CacheView,
    files: FilesView,
    gcm: Option<PkgGcmState>,
    plans: Seq<BlockPlan>,
) -> bool {
    forall|k: int|
        0 <= k < cache.len() ==> spec_is_block(files, gcm, plans, (#[trigger] cache[k]).0, cache[k].1)
}

/// A decoded block stays one when another patch file is made available.
pub proof fn lemma_block_stays(
    files: FilesView,
    added: (u16, Seq<u8>),
    gcm: Option<PkgGcmState>,
    plans: Seq<BlockPlan>,
    index: usize,
    data: Seq<u8>,
)
    requires
        spec_is_block(files, gcm, plans, index, data),
    ensures
        spec_is_block(spec_file_added(files, added.0, added.1), gcm, plans, index, data),
{
    lemma_image_push(files, plans[index as int].patch_id, added);
}

/// Whether a request for block `index` can have turned the cache `before`
/// into the cache `after` and given `r`.
///
/// A block that the cache holds is given from there, and the cache stays as
/// it is. Else the block is read: an index past the block table gives
/// `TableOutOfBounds`; a block that cannot be read or opened gives the error
/// of that step; a compressed block gives what the codec makes of its bytes;
/// any other block gives its bytes. A block that was read enters the cache
/// as its newest.
pub open spec fn spec_block_request(
    before: CacheView,
    after: CacheView,
    files: FilesView,
    gcm: Option<PkgGcmState>,
    plans: Seq<BlockPlan>,
    version: OodleVersion,
    index: usize,
    gave: spec_fn(OodleVersion, Seq<u8>, Result<Seq<u8>, PkgError>) -> bool,
    r: Result<Seq<u8>, PkgError>,
) -> bool {
    &&& r matches Ok(block) ==> spec_is_block(files, gcm, plans, index, block)
    &&& match spec_cached(before, index) {
        Some(data) => after == before && r == Ok::<Seq<u8>, PkgError>(data),
        None => {
            &&& match r {
                Ok(block) => after == spec_insert(before, index, block),
                Err(_) => after == before,
            }
            &&& if index >= plans.len() {
                r == Err::<Seq<u8>, PkgError>(PkgError::TableOutOfBounds)
            } else {
                match spec_plain(files, gcm, plans[index as int]) {
                    Err(e) => r == Err::<Seq<u8>, PkgError>(e),
                    Ok(plain) => if plans[index as int].compressed {
                        gave(version, plain, r)
                    } else {
                        r == Ok::<Seq<u8>, PkgError>(plain)
                    },
                }
            }
        },
    }
}

/// The view of a result that carries a shared block.
pub open spec fn spec_shared_view(r: Result<Arc<Vec<u8>>, PkgError>) -> Result<Seq<u8>, PkgError> {
    match r {
        Ok(block) => Ok(block@),
        Err(e) => Err(e),
    }
}

/// The bytes of block `index` as its file stores them. `TableOutOfBounds`
/// for an index past the block table or a block past the end of its file,
/// `SiblingMissing` while the block's patch file is not available.
pub fn read_raw(files: &FileHandles, plans: &Vec<BlockPlan>, index: usize) -> (r: Result<Vec<u8>, PkgError>)
    ensures
        spec_result_view(r) == if index < plans@.len() {
            spec_stored(files@, plans@[index as int].patch_id, plans@[index as int].offset, plans@[index as int].size)
        } else {
            Err(PkgError::TableOutOfBounds)
        },
{
    if index >= plans.len() {
        return Err(PkgError::TableOutOfBounds);
    }
    let plan: &BlockPlan = &plans[index];
    files.read_exact(plan.patch_id, plan.offset, plan.size)
}

/// Reads block `index`, opens it when it is encrypted and decompresses it
/// when it is compressed. `TableOutOfBounds` for an index past the block
/// table.
pub fn read_block<C>(
    files: &FileHandles,
    gcm: Option<&PkgGcmState>,
    plans: &Vec<BlockPlan>,
    version: OodleVersion,
    index: usize,
    codec: &C,
) -> (r: Result<Vec<u8>, PkgError>) where C: Fn(OodleVersion, &Vec<u8>) -> CodecOutcome
    requires
        forall|v: OodleVersion, input: &Vec<u8>| (*codec).requires((v, input)),
    ensures
        index >= plans@.len() ==> r == Err::<Vec<u8>, PkgError>(PkgError::TableOutOfBounds),
        index < plans@.len() ==> match spec_plain(files@, spec_keys_of(gcm), plans@[index as int]) {
            Err(e) => r == Err::<Vec<u8>, PkgError>(e),
            Ok(plain) => if plans@[index as int].compressed {
                spec_codec_gave(codec, version, plain, spec_result_view(r))
            } else {
                spec_result_view(r) == Ok::<Seq<u8>, PkgError>(plain)
            },
        },
        r matches Ok(v) ==> spec_is_block(files@, spec_keys_of(gcm), plans@, index, v@),
{
    if index >= plans.len() {
        return Err(PkgError::TableOutOfBounds);
    }
    load_block(files, gcm, &plans[index], version, codec)
}

/// The decoded block `index`: from the cache when it holds the block, else
/// read, opened and decompressed, and then kept in the cache.
pub fn get_block<C>(
    cache: &mut BlockCache,
    files: &FileHandles,
    gcm: Option<&PkgGcmState>,
    plans: &Vec<BlockPlan>,
    version: OodleVersion,
    index: usize,
    codec: &C,
) -> (r: Result<Arc<Vec<u8>>, PkgError>) where C: Fn(OodleVersion, &Vec<u8>) -> CodecOutcome
    requires
        old(cache).wf(),
        spec_holds_blocks(old(cache)@, files@, spec_keys_of(gcm), plans@),
        forall|v: OodleVersion, input: &Vec<u8>| (*codec).requires((v, input)),
    ensures
        final(cache).wf(),
        spec_holds_blocks(final(cache)@, files@, spec_keys_of(gcm), plans@),
        spec_block_request(
            old(cache)@,
            final(cache)@,
            files@,
            spec_keys_of(gcm),
            plans@,
            version,
            index,
            spec_codec(codec),
            spec_shared_view(r),
        ),
{
    match cache.lookup(index) {
        Some(block) => {
            proof {
                let view = cache@;
                let j = choose|j: int| 0 <= j < view.len() && view[j].0 == index;
                assert(spec_is_block(files@, spec_keys_of(gcm), plans@, view[j].0, view[j].1));
            }
            Ok(block)
        },
        None => {
            match read_block(files, gcm, plans, version, index, codec) {
                Ok(v) => {
                    let ghost before = cache@;
                    let block: Arc<Vec<u8>> = cache.insert(index, v);
                    proof {
                        let after = cache@;
                        let grown = before.push((index, v@));
                        assert forall|k: int| 0 <= k < after.len() implies spec_is_block(
                            files@,
                            spec_keys_of(gcm),
                            plans@,
                            (#[trigger] after[k]).0,
                            after[k].1,
                        ) by {
                            let g = if grown.len() > BlockCache::MAX_BLOCKS {
                                k + 1
                            } else {
                                k
                            };
                            assert(after[k] == grown[g]);
                            if g < before.len() {
                                assert(grown[g] == before[g]);
                            }
                        }
                    }
                    Ok(block)
                },
                Err(e) => Err(e),
            }
        },
    }
}

} // verus!
