//! The reader core behind the archives of the first title, which holds no
//! keys: an encrypted block cannot be opened.

use std::sync::Arc;
use vstd::prelude::*;
use crate::block::{
    lemma_block_stays, spec_codec_gave, spec_holds_blocks, spec_plain, spec_result_view, spec_stored, BlockPlan,
    FileHandles,
};
use crate::block_cache::BlockCache;
use crate::d2_shared::{path_base_of, sibling_path, spec_path_base, spec_sibling_path, PackageNamedTagEntry};
use crate::error::PkgError;
use crate::oodle::{CodecOutcome, OodleVersion};
use crate::package::{PackageLanguage, PackagePlatform, UEntryHeader};

verus! {

/// What a generation's reader has taken from an archive's header and
/// tables.
pub struct CommonPackageDataD1 {
    pub pkg_id: u16,
    pub patch_id: u16,
    pub language: PackageLanguage,
    pub platform: PackagePlatform,
    pub entries: Vec<UEntryHeader>,
    pub plans: Vec<BlockPlan>,
    pub named_tags: Vec<PackageNamedTagEntry>,
}

/// The reader core of the archives of the first title.
pub struct PackageCommonD1 {
    pub pkg_id: u16,
    pub patch_id: u16,
    pub language: PackageLanguage,
    pub platform: PackagePlatform,
    pub entries_unified: Vec<UEntryHeader>,
    /// Where each block lies and whether it is compressed.
    pub plans: Vec<BlockPlan>,
    pub named_tags: Vec<PackageNamedTagEntry>,
    /// The image of the archive's own file, and those of its patch files
    /// that have been made available.
    pub file_handles: FileHandles,
    pub path_base: String,
    pub block_cache: BlockCache,
}

impl PackageCommonD1 {
    /// The codec of the first title.
    pub open spec fn spec_codec() -> OodleVersion {
        OodleVersion::V3
    }

    /// Whether `data` can be the decoded block `index`.
    pub open spec fn spec_is_block(&self, index: usize, data: Seq<u8>) -> bool {
        crate::block::spec_is_block(self.file_handles@, None, self.plans@, index, data)
    }

    /// Whether two reader cores agree on everything but the blocks they
    /// keep.
    pub open spec fn spec_same_archive(&self, other: &Self) -> bool {
        &&& self.pkg_id == other.pkg_id
        &&& self.patch_id == other.patch_id
        &&& self.language == other.language
        &&& self.platform == other.platform
        &&& self.entries_unified == other.entries_unified
        &&& self.plans == other.plans
        &&& self.named_tags == other.named_tags
        &&& self.file_handles == other.file_handles
        &&& self.path_base == other.path_base
    }

    /// The cache holds decoded blocks of this archive only.
    pub open spec fn wf(&self) -> bool {
        &&& self.block_cache.wf()
        &&& spec_holds_blocks(self.block_cache@, self.file_handles@, None, self.plans@)
    }

    /// The reader core for an archive with the given image, path and tables.
    pub fn new(reader: Vec<u8>, path: &str, data: CommonPackageDataD1) -> (p: PackageCommonD1)
        ensures
            p.wf(),
            p.pkg_id == data.pkg_id,
            p.patch_id == data.patch_id,
            p.language == data.language,
            p.platform == data.platform,
            p.entries_unified == data.entries,
            p.plans == data.plans,
            p.named_tags == data.named_tags,
            p.file_handles@ == crate::block::spec_one_file(data.patch_id, reader@),
            p.path_base@ == spec_path_base(path@),
            p.block_cache@.len() == 0,
    {
        let CommonPackageDataD1 { pkg_id, patch_id, language, platform, entries, plans, named_tags } = data;
        PackageCommonD1 {
            pkg_id,
            patch_id,
            language,
            platform,
            entries_unified: entries,
            plans,
            named_tags,
            file_handles: FileHandles::new(patch_id, reader),
            path_base: path_base_of(path),
            block_cache: BlockCache::new(),
        }
    }

    /// The path of the patch file with the given id.
    pub fn sibling_path(&self, patch_id: u16) -> (path: String)
        ensures
            path@ == spec_sibling_path(self.path_base@, patch_id),
    {
        sibling_path(self.path_base.as_str(), patch_id)
    }

    /// Makes the image of a patch file available for the blocks that lie in
    /// it. When the patch already has an image, that one stays in use.
    pub fn add_patch_file(&mut self, patch_id: u16, data: Vec<u8>)
        requires
            old(self).wf(),
        ensures
            final(self).wf(),
            final(self).file_handles@ == crate::block::spec_file_added(old(self).file_handles@, patch_id, data@),
            final(self).block_cache == old(self).block_cache,
            final(self).entries_unified == old(self).entries_unified,
            final(self).plans == old(self).plans,
            final(self).named_tags == old(self).named_tags,
            final(self).pkg_id == old(self).pkg_id,
            final(self).patch_id == old(self).patch_id,
            final(self).language == old(self).language,
            final(self).platform == old(self).platform,
            final(self).path_base == old(self).path_base,
            forall|i: usize, d: Seq<u8>| old(self).spec_is_block(i, d) ==> final(self).spec_is_block(i, d),
    {
        let ghost files = self.file_handles@;
        self.file_handles.insert(patch_id, data);
        proof {
            assert forall|i: usize, d: Seq<u8>| old(self).spec_is_block(i, d) implies self.spec_is_block(
                i,
                d,
            ) by {
                lemma_block_stays(files, (patch_id, data@), None, self.plans@, i, d);
            }
            let cache = self.block_cache@;
            assert forall|k: int| 0 <= k < cache.len() implies crate::block::spec_is_block(
                self.file_handles@,
                None,
                self.plans@,
                (#[trigger] cache[k]).0,
                cache[k].1,
            ) by {
                assert(old(self).spec_is_block(cache[k].0, cache[k].1));
            }
        }
    }

    /// The bytes of a block as its file stores them. `TableOutOfBounds` for
    /// an index past the block table or a block past the end of its file,
    /// `SiblingMissing` while the block's patch file is not available.
    pub fn get_block_raw(&self, block_index: usize) -> (r: Result<Vec<u8>, PkgError>)
        ensures
            spec_result_view(r) == if block_index < self.plans@.len() {
                spec_stored(
                    self.file_handles@,
                    self.plans@[block_index as int].patch_id,
                    self.plans@[block_index as int].offset,
                    self.plans@[block_index as int].size,
                )
            } else {
                Err(PkgError::TableOutOfBounds)
            },
    {
        crate::block::read_raw(&self.file_handles, &self.plans, block_index)
    }

    /// Whether `r` is what reading block `index` comes to: `TableOutOfBounds`
    /// for an index past the block table; the error of reading the stored
    /// bytes; what the codec makes of them when the block is compressed;
    /// else the stored bytes.
    pub open spec fn spec_block_read<C: Fn(OodleVersion, &Vec<u8>) -> CodecOutcome>(
        &self,
        index: usize,
        codec: &C,
        r: Result<Vec<u8>, PkgError>,
    ) -> bool {
        if index >= self.plans@.len() {
            r == Err::<Vec<u8>, PkgError>(PkgError::TableOutOfBounds)
        } else {
            match spec_plain(self.file_handles@, None, self.plans@[index as int]) {
                Err(e) => r == Err::<Vec<u8>, PkgError>(e),
                Ok(plain) => if self.plans@[index as int].compressed {
                    spec_codec_gave(codec, Self::spec_codec(), plain, spec_result_view(r))
                } else {
                    spec_result_view(r) == Ok::<Seq<u8>, PkgError>(plain)
                },
            }
        }
    }

    /// Reads the block with the given index and decompresses it when it is
    /// compressed.
    pub fn read_block<C>(&self, block_index: usize, codec: &C) -> (r: Result<Vec<u8>, PkgError>) where
        C: Fn(OodleVersion, &Vec<u8>) -> CodecOutcome,

        requires
            forall|v: OodleVersion, input: &Vec<u8>| (*codec).requires((v, input)),
        ensures
            self.spec_block_read(block_index, codec, r),
            r matches Ok(v) ==> self.spec_is_block(block_index, v@),
    {
        crate::block::read_block(&self.file_handles, None, &self.plans, OodleVersion::V3, block_index, codec)
    }

    /// Whether a request for block `index`, put to the reader `before`, can
    /// have left the reader `after` and given `r`: the cache answers or
    /// takes the block that was read, and nothing but the cache changes.
    pub open spec fn spec_block_request(
        before: Self,
        after: Self,
        index: usize,
        gave: spec_fn(OodleVersion, Seq<u8>, Result<Seq<u8>, PkgError>) -> bool,
        r: Result<Seq<u8>, PkgError>,
    ) -> bool {
        &&& after.spec_same_archive(&before)
        &&& after.wf()
        &&& crate::block::spec_block_request(
            before.block_cache@,
            after.block_cache@,
            before.file_handles@,
            None,
            before.plans@,
            Self::spec_codec(),
            index,
            gave,
            r,
        )
    }

    /// The decoded block with the given index: from the cache when it holds
    /// the block, else read and decompressed, and then kept in the cache.
    pub fn get_block<C>(&mut self, block_index: usize, codec: &C) -> (r: Result<Arc<Vec<u8>>, PkgError>) where
        C: Fn(OodleVersion, &Vec<u8>) -> CodecOutcome,

        requires
            old(self).wf(),
            forall|v: OodleVersion, input: &Vec<u8>| (*codec).requires((v, input)),
        ensures
            final(self).wf(),
            Self::spec_block_request(
                *old(self),
                *final(self),
                block_index,
                crate::block::spec_codec(codec),
                crate::block::spec_shared_view(r),
            ),
    {
        crate::block::get_block(
            &mut self.block_cache,
            &self.file_handles,
            None,
            &self.plans,
            OodleVersion::V3,
            block_index,
            codec,
        )
    }
}

} // verus!
