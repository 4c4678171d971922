//! An open archive of whichever generation, behind one type.

use std::sync::Arc;
use vstd::prelude::*;
use crate::bytes::Endian;
use crate::d1_internal_alpha::PackageD1InternalAlpha;
use crate::d1_roi::PackageD1RiseOfIron;
use crate::d2_beta::PackageD2Beta;
use crate::d2_beyondlight::PackageD2BeyondLight;
use crate::d2_prebl::PackageD2PreBL;
use crate::d2_shared::PackageNamedTagEntry;
use crate::error::PkgError;
use crate::oodle::{spec_codec, spec_result_view, CodecOutcome, OodleVersion};
use crate::package::{
    spec_entry_read, Package, PackageLanguage, PackagePlatform, UEntryHeader, UHashTableEntry,
};

verus! {

/// An open archive of one of the generations that have a reader.
pub enum AnyPackage {
    D1InternalAlpha(PackageD1InternalAlpha),
    D1RiseOfIron(PackageD1RiseOfIron),
    D2Beta(PackageD2Beta),
    D2PreBL(PackageD2PreBL),
    D2BeyondLight(PackageD2BeyondLight),
}

impl AnyPackage {
    /// The path of the archive without its last underscore and what follows
    /// it.
    pub open spec fn spec_path_base(&self) -> Seq<char> {
        match self {
            AnyPackage::D1InternalAlpha(p) => p.common.path_base@,
            AnyPackage::D1RiseOfIron(p) => p.common.path_base@,
            AnyPackage::D2Beta(p) => p.common.path_base@,
            AnyPackage::D2PreBL(p) => p.common.path_base@,
            AnyPackage::D2BeyondLight(p) => p.common.path_base@,
        }
    }

    /// The decoded blocks that the archive keeps, oldest first.
    pub open spec fn spec_cache(&self) -> crate::block_cache::CacheView {
        match self {
            AnyPackage::D1InternalAlpha(p) => p.common.block_cache@,
            AnyPackage::D1RiseOfIron(p) => p.common.block_cache@,
            AnyPackage::D2Beta(p) => p.common.block_cache@,
            AnyPackage::D2PreBL(p) => p.common.block_cache@,
            AnyPackage::D2BeyondLight(p) => p.common.block_cache@,
        }
    }

    /// The patch files that have been made available, the archive's own
    /// file first.
    pub open spec fn spec_files(&self) -> crate::block::FilesView {
        match self {
            AnyPackage::D1InternalAlpha(p) => p.common.file_handles@,
            AnyPackage::D1RiseOfIron(p) => p.common.file_handles@,
            AnyPackage::D2Beta(p) => p.common.file_handles@,
            AnyPackage::D2PreBL(p) => p.common.file_handles@,
            AnyPackage::D2BeyondLight(p) => p.common.file_handles@,
        }
    }

    /// Makes the image of a patch file available for the blocks that lie in
    /// it. When the patch already has an image, that one stays in use.
    pub fn add_patch_file(&mut self, patch_id: u16, data: Vec<u8>)
        requires
            old(self).wf(),
        ensures
            final(self).wf(),
            final(self).spec_files() == crate::block::spec_file_added(old(self).spec_files(), patch_id, data@),
            final(self).spec_path_base() == old(self).spec_path_base(),
            final(self).spec_entries() == old(self).spec_entries(),
            final(self).spec_pkg_id() == old(self).spec_pkg_id(),
            final(self).spec_patch_id() == old(self).spec_patch_id(),
            final(self).spec_language() == old(self).spec_language(),
            final(self).spec_platform() == old(self).spec_platform(),
            final(self).spec_endianness() == old(self).spec_endianness(),
            final(self).spec_hash64_table() == old(self).spec_hash64_table(),
            final(self).spec_named_tags() == old(self).spec_named_tags(),
            forall|i: usize, d: Seq<u8>| old(self).spec_is_block(i, d) ==> final(self).spec_is_block(i, d),
    {
        match self {
            AnyPackage::D1InternalAlpha(p) => p.common.add_patch_file(patch_id, data),
            AnyPackage::D1RiseOfIron(p) => p.common.add_patch_file(patch_id, data),
            AnyPackage::D2Beta(p) => p.common.add_patch_file(patch_id, data),
            AnyPackage::D2PreBL(p) => p.common.add_patch_file(patch_id, data),
            AnyPackage::D2BeyondLight(p) => p.common.add_patch_file(patch_id, data),
        }
    }

    /// Reads the bytes of the entry with the given index. A patch file that
    /// the entry needs and that is not available yet is read through `open`
    /// and made available, up to `attempts` times.
    pub fn read_entry_with_patches<F, C>(&mut self, index: usize, open: &F, codec: &C, attempts: u32) -> (r: Result<
        Vec<u8>,
        PkgError,
    >) where F: Fn(&str) -> Option<Vec<u8>>, C: Fn(OodleVersion, &Vec<u8>) -> CodecOutcome
        requires
            old(self).wf(),
            forall|path: &str| (*open).requires((path,)),
            forall|v: OodleVersion, input: &Vec<u8>| (*codec).requires((v, input)),
        ensures
            final(self).wf(),
            final(self).spec_entries() == old(self).spec_entries(),
            final(self).spec_pkg_id() == old(self).spec_pkg_id(),
            final(self).spec_patch_id() == old(self).spec_patch_id(),
            spec_patched_read(
                open,
                spec_codec(codec),
                index,
                *old(self),
                *final(self),
                attempts as nat,
                spec_result_view(r),
            ),
            r matches Ok(data) ==> {
                &&& index < final(self).spec_entries().len()
                &&& data@.len() == final(self).spec_entries()[index as int].file_size
                &&& crate::package::spec_is_entry(
                    |i: usize, d: Seq<u8>| final(self).spec_is_block(i, d),
                    final(self).spec_entries()[index as int],
                    data@,
                )
            },
        decreases attempts,
    {
        let ghost gave = spec_codec(codec);
        let ghost before = *self;
        let r0: Result<Vec<u8>, PkgError> = self.read_entry(index, codec);
        let ghost mid = *self;
        proof {
            assert((|a: AnyPackage, b: AnyPackage, i: usize, x: Result<Seq<u8>, PkgError>|
                AnyPackage::spec_block_request(a, b, i, spec_codec(codec), x)) =~= (|
                a: AnyPackage,
                b: AnyPackage,
                i: usize,
                x: Result<Seq<u8>, PkgError>,
            | AnyPackage::spec_block_request(a, b, i, gave, x)));
            assert(spec_read_once(gave, index, before, mid, spec_result_view(r0)));
            if r0 is Ok {
                assert((|i: usize, d: Seq<u8>| before.spec_is_block(i, d)) =~= (|i: usize, d: Seq<u8>|
                    mid.spec_is_block(i, d)));
            }
        }
        match r0 {
            Err(PkgError::SiblingMissing(patch_id)) => {
                if attempts > 0 {
                    let path: String = self.sibling_path(patch_id);
                    let file: &str = path.as_str();
                    let read: Option<Vec<u8>> = (*open)(file);
                    proof {
                        assert((*open).ensures((file,), read));
                    }
                    let ghost seen: Option<Seq<u8>> = match &read {
                        Some(v) => Some(v@),
                        None => None,
                    };
                    proof {
                        assert(spec_file_read(
                            open,
                            crate::d2_shared::spec_sibling_path(mid.spec_path_base(), patch_id),
                            seen,
                        ));
                    }
                    match read {
                        Some(image) => {
                            self.add_patch_file(patch_id, image);
                            let ghost patched = *self;
                            let r = self.read_entry_with_patches(index, open, codec, attempts - 1);
                            proof {
                                assert(spec_attempt(
                                    open,
                                    gave,
                                    index,
                                    before,
                                    attempts as nat,
                                    mid,
                                    spec_result_view(r0),
                                    seen,
                                    patched,
                                ));
                                assert(spec_tries_again(spec_result_view(r0), seen, attempts as nat));
                            }
                            r
                        },
                        None => {
                            proof {
                                assert(spec_attempt(
                                    open,
                                    gave,
                                    index,
                                    before,
                                    attempts as nat,
                                    mid,
                                    spec_result_view(r0),
                                    seen,
                                    mid,
                                ));
                            }
                            r0
                        },
                    }
                } else {
                    proof {
                        assert(spec_attempt(
                            open,
                            gave,
                            index,
                            before,
                            attempts as nat,
                            mid,
                            spec_result_view(r0),
                            None,
                            mid,
                        ));
                    }
                    r0
                }
            },
            _ => {
                proof {
                    assert(spec_attempt(
                        open,
                        gave,
                        index,
                        before,
                        attempts as nat,
                        mid,
                        spec_result_view(r0),
                        None,
                        mid,
                    ));
                }
                r0
            },
        }
    }

    /// The path of the patch file with the given id.
    pub fn sibling_path(&self, patch_id: u16) -> (path: String)
        ensures
            path@ == crate::d2_shared::spec_sibling_path(self.spec_path_base(), patch_id),
    {
        match self {
            AnyPackage::D1InternalAlpha(p) => p.common.sibling_path(patch_id),
            AnyPackage::D1RiseOfIron(p) => p.common.sibling_path(patch_id),
            AnyPackage::D2Beta(p) => p.common.sibling_path(patch_id),
            AnyPackage::D2PreBL(p) => p.common.sibling_path(patch_id),
            AnyPackage::D2BeyondLight(p) => p.common.sibling_path(patch_id),
        }
    }
}

/// Whether reading entry `index` from the archive `before` can have left the
/// archive `after` and given `r`, where `gave` tells what the codec makes of
/// bytes: `TableOutOfBounds` for an index past the entry table, else what
/// the requests for the entry's blocks come to.
pub open spec fn spec_read_once(
    gave: spec_fn(OodleVersion, Seq<u8>, Result<Seq<u8>, PkgError>) -> bool,
    index: usize,
    before: AnyPackage,
    after: AnyPackage,
    r: Result<Seq<u8>, PkgError>,
) -> bool {
    if index >= before.spec_entries().len() {
        r == Err::<Seq<u8>, PkgError>(PkgError::TableOutOfBounds) && after == before
    } else {
        spec_entry_read(
            |a: AnyPackage, b: AnyPackage, i: usize, x: Result<Seq<u8>, PkgError>|
                AnyPackage::spec_block_request(a, b, i, gave, x),
            before.spec_entries()[index as int],
            before,
            after,
            r,
        )
    }
}

/// The blocks that a well-formed archive keeps are no more than the bound,
/// and none is kept twice.
pub proof fn lemma_cache_of(archive: AnyPackage)
    requires
        archive.wf(),
    ensures
        archive.spec_cache().len() <= crate::block_cache::BlockCache::MAX_BLOCKS,
        crate::block_cache::spec_distinct(archive.spec_cache()),
{
    match archive {
        AnyPackage::D1InternalAlpha(p) => p.common.block_cache.cache_is_bounded(),
        AnyPackage::D1RiseOfIron(p) => p.common.block_cache.cache_is_bounded(),
        AnyPackage::D2Beta(p) => p.common.block_cache.cache_is_bounded(),
        AnyPackage::D2PreBL(p) => p.common.block_cache.cache_is_bounded(),
        AnyPackage::D2BeyondLight(p) => p.common.block_cache.cache_is_bounded(),
    }
}

/// One request that gave a block, put to a well-formed archive: the archive
/// is well formed afterwards and keeps the block. When it is short of its
/// bound afterwards, it keeps every block that it kept before.
pub proof fn lemma_request_keeps(
    gave: spec_fn(OodleVersion, Seq<u8>, Result<Seq<u8>, PkgError>) -> bool,
    before: AnyPackage,
    after: AnyPackage,
    index: usize,
    block: Seq<u8>,
)
    requires
        before.wf(),
        AnyPackage::spec_block_request(before, after, index, gave, Ok(block)),
    ensures
        after.wf(),
        crate::block_cache::spec_cached(after.spec_cache(), index) == Some(block),
        before.spec_cache().len() <= after.spec_cache().len(),
        after.spec_cache().len() < crate::block_cache::BlockCache::MAX_BLOCKS ==> forall|i: usize, d: Seq<u8>|
            crate::block_cache::spec_cached(before.spec_cache(), i) == Some(d)
                ==> crate::block_cache::spec_cached(after.spec_cache(), i) == Some(d),
{
    lemma_cache_of(before);
    lemma_cache_of(after);
    let c = before.spec_cache();
    let c2 = after.spec_cache();
    if crate::block_cache::spec_cached(c, index) is None {
        let grown = c.push((index, block));
        assert(c2 == crate::block_cache::spec_insert(c, index, block));
        if grown.len() > crate::block_cache::BlockCache::MAX_BLOCKS {
            assert(c2 =~= grown.drop_first());
            assert(c2[c2.len() - 1] == (index, block));
            crate::block_cache::lemma_cached_at(c2, c2.len() - 1);
        } else {
            assert(c2[c2.len() - 1] == (index, block));
            crate::block_cache::lemma_cached_at(c2, c2.len() - 1);
            assert forall|i: usize, d: Seq<u8>|
                crate::block_cache::spec_cached(c, i) == Some(d) implies crate::block_cache::spec_cached(c2, i)
                == Some(d) by {
                let j = choose|j: int| 0 <= j < c.len() && c[j].0 == i;
                assert(c2[j] == c[j]);
                crate::block_cache::lemma_cached_at(c2, j);
            }
        }
    }
}

/// Through a run of requests put to a well-formed archive that is short of
/// its bound afterwards, every block that was given is kept.
pub proof fn lemma_requests_are_kept(
    gave: spec_fn(OodleVersion, Seq<u8>, Result<Seq<u8>, PkgError>) -> bool,
    first: u32,
    states: Seq<AnyPackage>,
    blocks: Seq<Seq<u8>>,
    k: int,
)
    requires
        crate::package::spec_requests(
            |a: AnyPackage, b: AnyPackage, i: usize, x: Result<Seq<u8>, PkgError>|
                AnyPackage::spec_block_request(a, b, i, gave, x),
            first,
            states,
            blocks,
        ),
        0 <= k <= blocks.len(),
        states[0].wf(),
        states[k].spec_cache().len() < crate::block_cache::BlockCache::MAX_BLOCKS,
    ensures
        states[k].wf(),
        forall|j: int|
            0 <= j < k ==> crate::block_cache::spec_cached(states[k].spec_cache(), (first + j) as usize) == Some(
                #[trigger] blocks[j],
            ),
    decreases k,
{
    if k > 0 {
        let answer = |a: AnyPackage, b: AnyPackage, i: usize, x: Result<Seq<u8>, PkgError>|
            AnyPackage::spec_block_request(a, b, i, gave, x);
        assert(answer(states[k - 1], states[k], (first + (k - 1)) as usize, Ok(blocks[k - 1])));
        lemma_states_are_well_formed(gave, first, states, blocks, k - 1);
        lemma_request_keeps(gave, states[k - 1], states[k], (first + (k - 1)) as usize, blocks[k - 1]);
        lemma_requests_are_kept(gave, first, states, blocks, k - 1);
    }
}

/// Through a run of requests a well-formed archive stays well formed.
pub proof fn lemma_states_are_well_formed(
    gave: spec_fn(OodleVersion, Seq<u8>, Result<Seq<u8>, PkgError>) -> bool,
    first: u32,
    states: Seq<AnyPackage>,
    blocks: Seq<Seq<u8>>,
    k: int,
)
    requires
        crate::package::spec_requests(
            |a: AnyPackage, b: AnyPackage, i: usize, x: Result<Seq<u8>, PkgError>|
                AnyPackage::spec_block_request(a, b, i, gave, x),
            first,
            states,
            blocks,
        ),
        0 <= k <= blocks.len(),
        states[0].wf(),
    ensures
        states[k].wf(),
    decreases k,
{
    if k > 0 {
        let answer = |a: AnyPackage, b: AnyPackage, i: usize, x: Result<Seq<u8>, PkgError>|
            AnyPackage::spec_block_request(a, b, i, gave, x);
        assert(answer(states[k - 1], states[k], (first + (k - 1)) as usize, Ok(blocks[k - 1])));
    }
}

/// A second reading gives the bytes of the first and loads no block. When
/// an entry was read from a well-formed archive, and the archive is short of
/// its bound afterwards, reading the entry again gives the same bytes,
/// whatever the files and the codec would give now, and the archive keeps
/// the blocks it kept, no more and no less.
pub proof fn second_read_gives_the_same(
    gave: spec_fn(OodleVersion, Seq<u8>, Result<Seq<u8>, PkgError>) -> bool,
    again: spec_fn(OodleVersion, Seq<u8>, Result<Seq<u8>, PkgError>) -> bool,
    index: usize,
    before: AnyPackage,
    between: AnyPackage,
    after: AnyPackage,
    bytes: Seq<u8>,
    r: Result<Seq<u8>, PkgError>,
)
    requires
        before.wf(),
        index < before.spec_entries().len(),
        between.spec_entries() == before.spec_entries(),
        spec_read_once(gave, index, before, between, Ok(bytes)),
        between.spec_cache().len() < crate::block_cache::BlockCache::MAX_BLOCKS,
        spec_read_once(again, index, between, after, r),
    ensures
        r == Ok::<Seq<u8>, PkgError>(bytes),
        after.spec_cache() == between.spec_cache(),
{
    let entry = before.spec_entries()[index as int];
    if entry.file_size > 0 {
        let answer = |a: AnyPackage, b: AnyPackage, i: usize, x: Result<Seq<u8>, PkgError>|
            AnyPackage::spec_block_request(a, b, i, gave, x);
        let (states, blocks) = choose|states: Seq<AnyPackage>, blocks: Seq<Seq<u8>>| #[trigger]
            crate::package::spec_requests(answer, entry.starting_block, states, blocks) && states[0] == before
                && crate::package::spec_entry_end(answer, entry, states, blocks, between, Ok(bytes));
        let n = blocks.len() as int;
        lemma_requests_are_kept(gave, entry.starting_block, states, blocks, n);
        kept_entry_is_read_again(again, index, blocks, between, after, r);
    }
}

/// An entry whose blocks the archive keeps is read from them: the reading
/// gives the bytes of the entry's range over the kept blocks laid end to
/// end, whatever the files and the codec would give, and the archive keeps
/// the blocks it kept, no more and no less. So a second reading of an entry
/// whose blocks are still kept gives the bytes of the first and loads no
/// block.
pub proof fn kept_entry_is_read_again(
    gave: spec_fn(OodleVersion, Seq<u8>, Result<Seq<u8>, PkgError>) -> bool,
    index: usize,
    data: Seq<Seq<u8>>,
    before: AnyPackage,
    after: AnyPackage,
    r: Result<Seq<u8>, PkgError>,
)
    requires
        index < before.spec_entries().len(),
        before.spec_entries()[index as int].file_size > 0,
        data.len() > 0,
        before.spec_entries()[index as int].starting_block + data.len() <= u32::MAX + 1,
        before.spec_entries()[index as int].starting_block_offset <= data[0].len(),
        before.spec_entries()[index as int].starting_block_offset + before.spec_entries()[index as int].file_size
            <= crate::package::spec_join(data).len(),
        forall|k: int|
            0 <= k < data.len() ==> crate::block_cache::spec_cached(
                before.spec_cache(),
                (before.spec_entries()[index as int].starting_block + k) as usize,
            ) == Some(#[trigger] data[k]),
        spec_read_once(gave, index, before, after, r),
    ensures
        r == Ok::<Seq<u8>, PkgError>(
            crate::package::spec_join(data).subrange(
                before.spec_entries()[index as int].starting_block_offset as int,
                before.spec_entries()[index as int].starting_block_offset + before.spec_entries()[index as int].file_size,
            ),
        ),
        after.spec_cache() == before.spec_cache(),
{
    let entry = before.spec_entries()[index as int];
    let start = entry.starting_block as int;
    let keeps = |p: AnyPackage| p.spec_cache() == before.spec_cache();
    let answer = |a: AnyPackage, b: AnyPackage, i: usize, x: Result<Seq<u8>, PkgError>|
        AnyPackage::spec_block_request(a, b, i, gave, x);
    assert forall|a: AnyPackage, b: AnyPackage, i: usize, x: Result<Seq<u8>, PkgError>|
        keeps(a) && entry.starting_block <= i < entry.starting_block + data.len() && #[trigger] answer(
            a,
            b,
            i,
            x,
        ) implies x == Ok::<Seq<u8>, PkgError>(data[i - entry.starting_block]) && keeps(b) by {
        let k = i - start;
        assert(crate::block_cache::spec_cached(before.spec_cache(), (start + k) as usize) == Some(data[k]));
    }
    crate::package::entry_is_read_from_its_blocks(answer, keeps, entry, data, before, after, r);
}

/// Whether `read` is what reading the file at `path` through `open` gave.
pub open spec fn spec_file_read<F: Fn(&str) -> Option<Vec<u8>>>(open: &F, path: Seq<char>, read: Option<Seq<u8>>) -> bool {
    exists|file: &str, image: Option<Vec<u8>>| #[trigger]
        (*open).ensures((file,), image) && file@ == path && read == match image {
            Some(v) => Some(v@),
            None => None,
        }
}

/// Whether `patched` is the archive `archive` after the image of the patch
/// file `patch_id` was made available to it.
pub open spec fn spec_patch_added(archive: AnyPackage, patched: AnyPackage, patch_id: u16, image: Seq<u8>) -> bool {
    &&& patched.wf()
    &&& patched.spec_files() == crate::block::spec_file_added(archive.spec_files(), patch_id, image)
    &&& patched.spec_path_base() == archive.spec_path_base()
    &&& patched.spec_entries() == archive.spec_entries()
    &&& patched.spec_pkg_id() == archive.spec_pkg_id()
    &&& patched.spec_patch_id() == archive.spec_patch_id()
}

/// Whether a reading that gave `r0` is tried again: it failed for want of a
/// patch file, another attempt is left, and the file could be read.
pub open spec fn spec_tries_again(r0: Result<Seq<u8>, PkgError>, read: Option<Seq<u8>>, attempts: nat) -> bool {
    match r0 {
        Err(PkgError::SiblingMissing(_)) => attempts > 0 && read is Some,
        _ => false,
    }
}

/// One attempt at reading entry `index` from the archive `before`: it left
/// the archive `mid` and gave `r0`. When it failed for want of the patch
/// file `p` and another attempt is left, the file is read through `open`,
/// which gave `read`; when that is an image, `patched` is the archive with
/// the image made available.
pub open spec fn spec_attempt<F: Fn(&str) -> Option<Vec<u8>>>(
    open: &F,
    gave: spec_fn(OodleVersion, Seq<u8>, Result<Seq<u8>, PkgError>) -> bool,
    index: usize,
    before: AnyPackage,
    attempts: nat,
    mid: AnyPackage,
    r0: Result<Seq<u8>, PkgError>,
    read: Option<Seq<u8>>,
    patched: AnyPackage,
) -> bool {
    &&& spec_read_once(gave, index, before, mid, r0)
    &&& match r0 {
        Err(PkgError::SiblingMissing(p)) => attempts > 0 ==> {
            &&& spec_file_read(open, crate::d2_shared::spec_sibling_path(mid.spec_path_base(), p), read)
            &&& match read {
                Some(image) => spec_patch_added(mid, patched, p, image),
                None => true,
            }
        },
        _ => true,
    }
}

/// Whether reading entry `index` from the archive `before`, with up to
/// `attempts` patch files read through `open` on the way, can have left the
/// archive `after` and given `r`.
///
/// The entry is read. When that fails for want of a patch file, the file is
/// read through `open`, its image is made available to the archive and the
/// entry is read again, as long as attempts are left. The outcome of the
/// last reading is given.
pub open spec fn spec_patched_read<F: Fn(&str) -> Option<Vec<u8>>>(
    open: &F,
    gave: spec_fn(OodleVersion, Seq<u8>, Result<Seq<u8>, PkgError>) -> bool,
    index: usize,
    before: AnyPackage,
    after: AnyPackage,
    attempts: nat,
    r: Result<Seq<u8>, PkgError>,
) -> bool
    decreases attempts,
{
    exists|mid: AnyPackage, r0: Result<Seq<u8>, PkgError>, read: Option<Seq<u8>>, patched: AnyPackage| #[trigger]
        spec_attempt(open, gave, index, before, attempts, mid, r0, read, patched) && if spec_tries_again(
            r0,
            read,
            attempts,
        ) {
            spec_patched_read(open, gave, index, patched, after, (attempts - 1) as nat, r)
        } else {
            after == mid && r == r0
        }
}

impl Package for AnyPackage {
    /// Whether a request for block `index`, put to the archive `before`, can
    /// have left the archive `after` and given `r`: the reader of the
    /// archive's generation answers, from its cache or by reading the block,
    /// and the archive stays of its generation.
    open spec fn spec_block_request(
        before: AnyPackage,
        after: AnyPackage,
        index: usize,
        gave: spec_fn(OodleVersion, Seq<u8>, Result<Seq<u8>, PkgError>) -> bool,
        r: Result<Seq<u8>, PkgError>,
    ) -> bool {
        match (before, after) {
            (AnyPackage::D1InternalAlpha(a), AnyPackage::D1InternalAlpha(b)) => {
                crate::d1_shared::PackageCommonD1::spec_block_request(a.common, b.common, index, gave, r)
            },
            (AnyPackage::D1RiseOfIron(a), AnyPackage::D1RiseOfIron(b)) => {
                crate::d1_shared::PackageCommonD1::spec_block_request(a.common, b.common, index, gave, r)
            },
            (AnyPackage::D2Beta(a), AnyPackage::D2Beta(b)) => {
                crate::d2_shared::PackageCommonD2::spec_block_request(a.common, b.common, index, gave, r)
            },
            (AnyPackage::D2PreBL(a), AnyPackage::D2PreBL(b)) => {
                crate::d2_shared::PackageCommonD2::spec_block_request(a.common, b.common, index, gave, r)
            },
            (AnyPackage::D2BeyondLight(a), AnyPackage::D2BeyondLight(b)) => {
                crate::d2_shared::PackageCommonD2::spec_block_request(a.common, b.common, index, gave, r)
            },
            _ => false,
        }
    }

    open spec fn wf(&self) -> bool {
        match self {
            AnyPackage::D1InternalAlpha(p) => p.wf(),
            AnyPackage::D1RiseOfIron(p) => p.wf(),
            AnyPackage::D2Beta(p) => p.wf(),
            AnyPackage::D2PreBL(p) => p.wf(),
            AnyPackage::D2BeyondLight(p) => p.wf(),
        }
    }

    open spec fn spec_entries(&self) -> Seq<UEntryHeader> {
        match self {
            AnyPackage::D1InternalAlpha(p) => p.spec_entries(),
            AnyPackage::D1RiseOfIron(p) => p.spec_entries(),
            AnyPackage::D2Beta(p) => p.spec_entries(),
            AnyPackage::D2PreBL(p) => p.spec_entries(),
            AnyPackage::D2BeyondLight(p) => p.spec_entries(),
        }
    }

    open spec fn spec_pkg_id(&self) -> u16 {
        match self {
            AnyPackage::D1InternalAlpha(p) => p.spec_pkg_id(),
            AnyPackage::D1RiseOfIron(p) => p.spec_pkg_id(),
            AnyPackage::D2Beta(p) => p.spec_pkg_id(),
            AnyPackage::D2PreBL(p) => p.spec_pkg_id(),
            AnyPackage::D2BeyondLight(p) => p.spec_pkg_id(),
        }
    }

    open spec fn spec_is_block(&self, index: usize, data: Seq<u8>) -> bool {
        match self {
            AnyPackage::D1InternalAlpha(p) => p.spec_is_block(index, data),
            AnyPackage::D1RiseOfIron(p) => p.spec_is_block(index, data),
            AnyPackage::D2Beta(p) => p.spec_is_block(index, data),
            AnyPackage::D2PreBL(p) => p.spec_is_block(index, data),
            AnyPackage::D2BeyondLight(p) => p.spec_is_block(index, data),
        }
    }

    open spec fn spec_patch_id(&self) -> u16 {
        match self {
            AnyPackage::D1InternalAlpha(p) => p.spec_patch_id(),
            AnyPackage::D1RiseOfIron(p) => p.spec_patch_id(),
            AnyPackage::D2Beta(p) => p.spec_patch_id(),
            AnyPackage::D2PreBL(p) => p.spec_patch_id(),
            AnyPackage::D2BeyondLight(p) => p.spec_patch_id(),
        }
    }

    open spec fn spec_language(&self) -> PackageLanguage {
        match self {
            AnyPackage::D1InternalAlpha(p) => p.spec_language(),
            AnyPackage::D1RiseOfIron(p) => p.spec_language(),
            AnyPackage::D2Beta(p) => p.spec_language(),
            AnyPackage::D2PreBL(p) => p.spec_language(),
            AnyPackage::D2BeyondLight(p) => p.spec_language(),
        }
    }

    open spec fn spec_platform(&self) -> PackagePlatform {
        match self {
            AnyPackage::D1InternalAlpha(p) => p.spec_platform(),
            AnyPackage::D1RiseOfIron(p) => p.spec_platform(),
            AnyPackage::D2Beta(p) => p.spec_platform(),
            AnyPackage::D2PreBL(p) => p.spec_platform(),
            AnyPackage::D2BeyondLight(p) => p.spec_platform(),
        }
    }

    open spec fn spec_endianness(&self) -> Endian {
        match self {
            AnyPackage::D1InternalAlpha(p) => p.spec_endianness(),
            AnyPackage::D1RiseOfIron(p) => p.spec_endianness(),
            AnyPackage::D2Beta(p) => p.spec_endianness(),
            AnyPackage::D2PreBL(p) => p.spec_endianness(),
            AnyPackage::D2BeyondLight(p) => p.spec_endianness(),
        }
    }

    open spec fn spec_hash64_table(&self) -> Seq<UHashTableEntry> {
        match self {
            AnyPackage::D1InternalAlpha(p) => p.spec_hash64_table(),
            AnyPackage::D1RiseOfIron(p) => p.spec_hash64_table(),
            AnyPackage::D2Beta(p) => p.spec_hash64_table(),
            AnyPackage::D2PreBL(p) => p.spec_hash64_table(),
            AnyPackage::D2BeyondLight(p) => p.spec_hash64_table(),
        }
    }

    open spec fn spec_named_tags(&self) -> Seq<PackageNamedTagEntry> {
        match self {
            AnyPackage::D1InternalAlpha(p) => p.spec_named_tags(),
            AnyPackage::D1RiseOfIron(p) => p.spec_named_tags(),
            AnyPackage::D2Beta(p) => p.spec_named_tags(),
            AnyPackage::D2PreBL(p) => p.spec_named_tags(),
            AnyPackage::D2BeyondLight(p) => p.spec_named_tags(),
        }
    }

    fn endianness(&self) -> (e: Endian) {
        match self {
            AnyPackage::D1InternalAlpha(p) => p.endianness(),
            AnyPackage::D1RiseOfIron(p) => p.endianness(),
            AnyPackage::D2Beta(p) => p.endianness(),
            AnyPackage::D2PreBL(p) => p.endianness(),
            AnyPackage::D2BeyondLight(p) => p.endianness(),
        }
    }

    fn pkg_id(&self) -> (id: u16) {
        match self {
            AnyPackage::D1InternalAlpha(p) => p.pkg_id(),
            AnyPackage::D1RiseOfIron(p) => p.pkg_id(),
            AnyPackage::D2Beta(p) => p.pkg_id(),
            AnyPackage::D2PreBL(p) => p.pkg_id(),
            AnyPackage::D2BeyondLight(p) => p.pkg_id(),
        }
    }

    fn patch_id(&self) -> (id: u16) {
        match self {
            AnyPackage::D1InternalAlpha(p) => p.patch_id(),
            AnyPackage::D1RiseOfIron(p) => p.patch_id(),
            AnyPackage::D2Beta(p) => p.patch_id(),
            AnyPackage::D2PreBL(p) => p.patch_id(),
            AnyPackage::D2BeyondLight(p) => p.patch_id(),
        }
    }

    fn language(&self) -> (l: PackageLanguage) {
        match self {
            AnyPackage::D1InternalAlpha(p) => p.language(),
            AnyPackage::D1RiseOfIron(p) => p.language(),
            AnyPackage::D2Beta(p) => p.language(),
            AnyPackage::D2PreBL(p) => p.language(),
            AnyPackage::D2BeyondLight(p) => p.language(),
        }
    }

    fn platform(&self) -> (pl: PackagePlatform) {
        match self {
            AnyPackage::D1InternalAlpha(p) => p.platform(),
            AnyPackage::D1RiseOfIron(p) => p.platform(),
            AnyPackage::D2Beta(p) => p.platform(),
            AnyPackage::D2PreBL(p) => p.platform(),
            AnyPackage::D2BeyondLight(p) => p.platform(),
        }
    }

    fn hash64_table(&self) -> (r: Vec<UHashTableEntry>) {
        match self {
            AnyPackage::D1InternalAlpha(p) => p.hash64_table(),
            AnyPackage::D1RiseOfIron(p) => p.hash64_table(),
            AnyPackage::D2Beta(p) => p.hash64_table(),
            AnyPackage::D2PreBL(p) => p.hash64_table(),
            AnyPackage::D2BeyondLight(p) => p.hash64_table(),
        }
    }

    fn named_tags(&self) -> (r: Vec<PackageNamedTagEntry>) {
        match self {
            AnyPackage::D1InternalAlpha(p) => p.named_tags(),
            AnyPackage::D1RiseOfIron(p) => p.named_tags(),
            AnyPackage::D2Beta(p) => p.named_tags(),
            AnyPackage::D2PreBL(p) => p.named_tags(),
            AnyPackage::D2BeyondLight(p) => p.named_tags(),
        }
    }

    fn entries(&self) -> (r: &[UEntryHeader]) {
        match self {
            AnyPackage::D1InternalAlpha(p) => p.entries(),
            AnyPackage::D1RiseOfIron(p) => p.entries(),
            AnyPackage::D2Beta(p) => p.entries(),
            AnyPackage::D2PreBL(p) => p.entries(),
            AnyPackage::D2BeyondLight(p) => p.entries(),
        }
    }

    fn entry(&self, index: usize) -> (r: Option<UEntryHeader>) {
        match self {
            AnyPackage::D1InternalAlpha(p) => p.entry(index),
            AnyPackage::D1RiseOfIron(p) => p.entry(index),
            AnyPackage::D2Beta(p) => p.entry(index),
            AnyPackage::D2PreBL(p) => p.entry(index),
            AnyPackage::D2BeyondLight(p) => p.entry(index),
        }
    }

    fn get_block<C>(&mut self, index: usize, codec: &C) -> (r: Result<Arc<Vec<u8>>, PkgError>) where
        C: Fn(OodleVersion, &Vec<u8>) -> CodecOutcome,

        ensures
            AnyPackage::spec_block_request(
                *old(self),
                *final(self),
                index,
                crate::block::spec_codec(codec),
                crate::block::spec_shared_view(r),
            ),
    {
        match self {
            AnyPackage::D1InternalAlpha(p) => p.get_block(index, codec),
            AnyPackage::D1RiseOfIron(p) => p.get_block(index, codec),
            AnyPackage::D2Beta(p) => p.get_block(index, codec),
            AnyPackage::D2PreBL(p) => p.get_block(index, codec),
            AnyPackage::D2BeyondLight(p) => p.get_block(index, codec),
        }
    }
}

} // verus!
