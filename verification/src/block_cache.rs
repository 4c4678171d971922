//! A bounded cache of decoded blocks, which gives up its oldest block when
//! it grows past its bound.

use std::collections::HashMap;
use std::sync::Arc;
use vstd::prelude::*;
use crate::error::PkgError;

verus! {

broadcast use vstd::std_specs::hash::group_hash_axioms;

/// Hands out another handle to a shared block, by `Arc::clone`: both handles
/// lead to the same block.
#[verifier::external_body]
fn share(block: &Arc<Vec<u8>>) -> (r: Arc<Vec<u8>>)
    ensures
        r == *block,
{
    Arc::clone(block)
}

/// A decoded block with the time at which it entered the cache.
pub struct CachedBlock {
    /// The count of blocks that had entered the cache before this one.
    pub epoch: usize,
    pub data: Arc<Vec<u8>>,
}

impl Clone for CachedBlock {
    fn clone(&self) -> (r: Self)
        ensures
            r == *self,
    {
        CachedBlock { epoch: self.epoch, data: share(&self.data) }
    }
}

/// The blocks of a cache, oldest first, each with its block index.
pub type CacheView = Seq<(usize, Seq<u8>)>;

/// The place of block `index` in a cache.
pub open spec fn spec_position(cache: CacheView, index: usize) -> Option<int> {
    if exists|j: int| 0 <= j < cache.len() && cache[j].0 == index {
        Some(choose|j: int| 0 <= j < cache.len() && cache[j].0 == index)
    } else {
        None
    }
}

/// The data that a cache holds for block `index`.
pub open spec fn spec_cached(cache: CacheView, index: usize) -> Option<Seq<u8>> {
    match spec_position(cache, index) {
        Some(j) => Some(cache[j].1),
        None => None,
    }
}

/// No block index occurs twice.
pub open spec fn spec_distinct(cache: CacheView) -> bool {
    forall|i: int, j: int| 0 <= i < j < cache.len() ==> cache[i].0 != cache[j].0
}

/// A cache after block `index` has entered it as its newest: the oldest
/// leaves when the bound would be passed.
pub open spec fn spec_insert(cache: CacheView, index: usize, data: Seq<u8>) -> CacheView {
    let grown = cache.push((index, data));
    if grown.len() > BlockCache::MAX_BLOCKS {
        grown.drop_first()
    } else {
        grown
    }
}

/// A cache after a request for block `index` that the loader, where it was
/// needed, answered with `data`.
pub open spec fn spec_request(cache: CacheView, index: usize, data: Seq<u8>) -> CacheView {
    if spec_cached(cache, index) is Some {
        cache
    } else {
        spec_insert(cache, index, data)
    }
}

/// The outcome of `read_block` that a request for block `index` led to.
pub open spec fn spec_loaded_by<F: FnOnce(usize) -> Result<Vec<u8>, PkgError>>(
    read_block: F,
    index: usize,
    data: Seq<u8>,
) -> bool {
    exists|v: Vec<u8>| #[trigger] read_block.ensures((index,), Ok(v)) && v@ == data
}

/// A cache of decoded blocks by block index.
pub struct BlockCache {
    current_epoch: usize,
    blocks: HashMap<usize, CachedBlock>,
    /// The indices of the blocks that are kept, oldest first.
    ages: Vec<usize>,
}

impl BlockCache {
    /// The greatest number of blocks that the cache keeps.
    pub const MAX_BLOCKS: usize = 32;

    /// The blocks of the cache, oldest first.
    pub closed spec fn view(&self) -> CacheView {
        Seq::new(self.ages@.len(), |j: int| (self.ages@[j], self.blocks@[self.ages@[j]].data@))
    }

    /// The blocks are kept by their indices, each index once, in the order
    /// of their epochs.
    pub closed spec fn ordered(&self) -> bool {
        &&& forall|i: int, j: int| 0 <= i < j < self.ages@.len() ==> self.ages@[i] != self.ages@[j]
        &&& forall|k: usize| self.blocks@.contains_key(k) <==> self.ages@.contains(k)
        &&& forall|i: int, j: int|
            0 <= i < j < self.ages@.len() ==> self.blocks@[self.ages@[i]].epoch < self.blocks@[self.ages@[j]].epoch
        &&& forall|i: int| 0 <= i < self.ages@.len() ==> self.blocks@[self.ages@[i]].epoch < self.current_epoch
    }

    /// The cache holds no index twice, no more blocks than its bound, and
    /// its blocks in the order of their epochs.
    pub closed spec fn wf(&self) -> bool {
        &&& self.ages@.len() <= Self::MAX_BLOCKS
        &&& self.ordered()
    }

    /// A well-formed cache holds at most 32 blocks and none twice.
    pub proof fn cache_is_bounded(&self)
        requires
            self.wf(),
        ensures
            self@.len() <= Self::MAX_BLOCKS,
            spec_distinct(self@),
    {
    }

    /// An empty cache.
    pub fn new() -> (c: BlockCache)
        ensures
            c.wf(),
            c@ == CacheView::empty(),
    {
        let c = BlockCache { current_epoch: 0, blocks: HashMap::new(), ages: Vec::new() };
        assert(c@ =~= CacheView::empty());
        c
    }

    /// The number of blocks in the cache.
    pub fn len(&self) -> (n: usize)
        ensures
            n == self@.len(),
    {
        self.ages.len()
    }

    /// The block with the given index, when the cache holds it. The cache is
    /// not changed.
    pub fn lookup(&self, block_index: usize) -> (r: Option<Arc<Vec<u8>>>)
        requires
            self.wf(),
        ensures
            match r {
                Some(a) => spec_cached(self@, block_index) == Some(a@),
                None => spec_cached(self@, block_index) is None,
            },
    {
        match self.blocks.get(&block_index) {
            Some(block) => {
                proof {
                    assert(self.ages@.contains(block_index));
                    let j = choose|j: int| 0 <= j < self.ages@.len() && self.ages@[j] == block_index;
                    assert(self@[j].0 == block_index);
                    let c = choose|c: int| 0 <= c < self@.len() && self@[c].0 == block_index;
                    assert(self.ages@[c] == block_index);
                }
                Some(share(&block.data))
            },
            None => {
                proof {
                    if spec_position(self@, block_index) is Some {
                        let c = choose|c: int| 0 <= c < self@.len() && self@[c].0 == block_index;
                        assert(self.ages@[c] == block_index);
                        assert(self.ages@.contains(block_index));
                    }
                }
                None
            },
        }
    }

    /// Takes a freshly decoded block into the cache as its newest, and
    /// drops the oldest when the bound is passed.
    pub fn insert(&mut self, block_index: usize, data: Vec<u8>) -> (r: Arc<Vec<u8>>)
        requires
            old(self).wf(),
            spec_cached(old(self)@, block_index) is None,
        ensures
            final(self).wf(),
            r@ == data@,
            final(self)@ == spec_insert(old(self)@, block_index, data@),
    {
        if self.current_epoch == usize::MAX {
            self.renumber();
        }
        let ghost before = self@;
        let ghost was = *self;
        proof {
            if self.blocks@.contains_key(block_index) {
                assert(self.ordered());
                assert(self.ages@.contains(block_index));
                let j = choose|j: int| 0 <= j < self.ages@.len() && self.ages@[j] == block_index;
                assert(self@[j].0 == block_index);
                assert(spec_position(self@, block_index) is Some);
            }
        }
        let shared: Arc<Vec<u8>> = Arc::new(data);
        let handle: Arc<Vec<u8>> = share(&shared);
        let epoch: usize = self.current_epoch;
        self.blocks.insert(block_index, CachedBlock { epoch, data: shared });
        self.ages.push(block_index);
        self.current_epoch = epoch + 1;
        proof {
            assert forall|j: int| 0 <= j < was.ages@.len() implies self.ages@[j] == was.ages@[j] && self.blocks@[
                self.ages@[j]] == was.blocks@[was.ages@[j]] by {
                assert(was.ages@.contains(was.ages@[j]));
            }
            assert(self@ =~= before.push((block_index, data@)));
            assert forall|k: usize| self.blocks@.contains_key(k) <==> self.ages@.contains(k) by {
                if was.ages@.contains(k) {
                    let j = choose|j: int| 0 <= j < was.ages@.len() && was.ages@[j] == k;
                    assert(self.ages@[j] == k);
                }
                if k == block_index {
                    assert(self.ages@[was.ages@.len() as int] == k);
                }
                if self.ages@.contains(k) && k != block_index {
                    let j = choose|j: int| 0 <= j < self.ages@.len() && self.ages@[j] == k;
                    assert(was.ages@[j] == k);
                }
            }
            assert forall|i: int, j: int| 0 <= i < j < self.ages@.len() implies self.ages@[i] != self.ages@[j] by {
                if j == was.ages@.len() {
                    assert(was.ages@.contains(was.ages@[i]));
                }
            }
        }
        self.remove_old_blocks();
        handle
    }

    /// Gives the blocks the epochs 0, 1, 2, ... in their order, so that the
    /// counter can go on counting.
    fn renumber(&mut self)
        requires
            old(self).wf(),
        ensures
            final(self).wf(),
            final(self)@ == old(self)@,
            final(self).current_epoch <= Self::MAX_BLOCKS,
    {
        let ghost view = self@;
        let ghost ages = self.ages@;
        let mut j: usize = 0;
        while j < self.ages.len()
            invariant
                j <= self.ages@.len() <= Self::MAX_BLOCKS,
                self.ages@ == ages,
                self@ == view,
                forall|i: int, k: int| 0 <= i < k < ages.len() ==> ages[i] != ages[k],
                forall|k: usize| self.blocks@.contains_key(k) <==> ages.contains(k),
                forall|i: int| 0 <= i < j ==> self.blocks@[ages[i]].epoch == i,
                forall|i: int, k: int|
                    j <= i < k < ages.len() ==> self.blocks@[ages[i]].epoch < self.blocks@[ages[k]].epoch,
            decreases self.ages.len() - j,
        {
            let index: usize = self.ages[j];
            assert(ages.contains(index));
            let ghost prev = self.blocks@;
            let data: Option<Arc<Vec<u8>>> = match self.blocks.get(&index) {
                Some(block) => Some(share(&block.data)),
                None => None,
            };
            match data {
                Some(data) => {
                    self.blocks.insert(index, CachedBlock { epoch: j, data });
                },
                None => {},
            }
            proof {
                assert forall|i: int| 0 <= i < ages.len() && i != j implies self.blocks@[ages[i]] == prev[ages[i]] by {
                    if i < j {
                        assert(ages[i] != ages[j as int]);
                    } else {
                        assert(ages[j as int] != ages[i]);
                    }
                }
                assert(self@ =~= view);
                assert forall|k: usize| self.blocks@.contains_key(k) <==> ages.contains(k) by {}
            }
            j = j + 1;
        }
        self.current_epoch = self.ages.len();
    }

    /// Drops the blocks with the smallest epochs until the cache is within
    /// its bound.
    fn remove_old_blocks(&mut self)
        requires
            old(self).ages@.len() <= Self::MAX_BLOCKS + 1,
            old(self).ordered(),
        ensures
            final(self).wf(),
            final(self)@ == if old(self)@.len() > Self::MAX_BLOCKS {
                old(self)@.drop_first()
            } else {
                old(self)@
            },
    {
        while self.ages.len() > Self::MAX_BLOCKS
            invariant
                self.ages@.len() <= Self::MAX_BLOCKS + 1,
                self.ordered(),
                self@ == if old(self)@.len() > Self::MAX_BLOCKS && self.ages@.len() <= Self::MAX_BLOCKS {
                    old(self)@.drop_first()
                } else {
                    old(self)@
                },
            decreases self.ages@.len(),
        {
            let ghost before = self@;
            let ghost was = *self;
            let oldest: usize = self.ages.remove(0);
            self.blocks.remove(&oldest);
            proof {
                assert(self.ages@ == was.ages@.remove(0));
                assert forall|j: int| 0 <= j < self.ages@.len() implies self.ages@[j] == was.ages@[j + 1]
                    && self.blocks@[self.ages@[j]] == was.blocks@[was.ages@[j + 1]] by {
                    assert(was.ages@[0] != was.ages@[j + 1]);
                    assert(was.ages@.contains(was.ages@[j + 1]));
                }
                assert(self@ =~= before.drop_first());
                assert forall|k: usize| self.blocks@.contains_key(k) <==> self.ages@.contains(k) by {
                    if self.ages@.contains(k) {
                        let j = choose|j: int| 0 <= j < self.ages@.len() && self.ages@[j] == k;
                        assert(was.ages@[j + 1] == k);
                        assert(was.ages@.contains(k));
                        assert(was.ages@[0] != was.ages@[j + 1]);
                    }
                    if was.ages@.contains(k) && k != oldest {
                        let j = choose|j: int| 0 <= j < was.ages@.len() && was.ages@[j] == k;
                        assert(self.ages@[j - 1] == k);
                    }
                }
                assert forall|i: int, j: int| 0 <= i < j < self.ages@.len() implies self.ages@[i]
                    != self.ages@[j] by {
                    assert(was.ages@[i + 1] != was.ages@[j + 1]);
                }
                assert forall|i: int, j: int| 0 <= i < j < self.ages@.len() implies self.blocks@[self.ages@[i]].epoch
                    < self.blocks@[self.ages@[j]].epoch by {
                    assert(was.blocks@[was.ages@[i + 1]].epoch < was.blocks@[was.ages@[j + 1]].epoch);
                }
            }
        }
    }

    /// The block with the given index: from the cache when it holds one, else
    /// from `read_block`, whose block then enters the cache. An error of
    /// `read_block` is handed on and leaves the cache as it was.
    pub fn get<F>(&mut self, block_index: usize, read_block: F) -> (r: Result<Arc<Vec<u8>>, PkgError>) where
        F: FnOnce(usize) -> Result<Vec<u8>, PkgError>,

        requires
            old(self).wf(),
            read_block.requires((block_index,)),
        ensures
            final(self).wf(),
            match spec_cached(old(self)@, block_index) {
                Some(data) => final(self)@ == old(self)@ && (r matches Ok(a) && a@ == data),
                None => match r {
                    Ok(a) => spec_loaded_by(read_block, block_index, a@) && final(self)@ == spec_insert(
                        old(self)@,
                        block_index,
                        a@,
                    ),
                    Err(e) => read_block.ensures((block_index,), Err(e)) && final(self)@ == old(self)@,
                },
            },
    {
        match self.lookup(block_index) {
            Some(a) => Ok(a),
            None => {
                match read_block(block_index) {
                    Ok(v) => {
                        assert(spec_loaded_by(read_block, block_index, v@));
                        Ok(self.insert(block_index, v))
                    },
                    Err(e) => Err(e),
                }
            },
        }
    }
}

/// A cache after the requests for the first `n` of `indices`, each answered
/// where needed with the data that `data` gives for the block.
pub open spec fn spec_after_requests(indices: Seq<usize>, data: spec_fn(usize) -> Seq<u8>, n: int) -> CacheView
    decreases n,
{
    if n <= 0 {
        CacheView::empty()
    } else {
        spec_request(spec_after_requests(indices, data, n - 1), indices[n - 1], data(indices[n - 1]))
    }
}

/// The number of the first `n` requests that the loader had to answer.
pub open spec fn spec_loads(indices: Seq<usize>, data: spec_fn(usize) -> Seq<u8>, n: int) -> int
    decreases n,
{
    if n <= 0 {
        0
    } else {
        spec_loads(indices, data, n - 1) + if spec_cached(
            spec_after_requests(indices, data, n - 1),
            indices[n - 1],
        ) is Some {
            0int
        } else {
            1int
        }
    }
}

/// After requests for `n` different blocks, put to an empty cache, every
/// one of them was loaded, and the cache holds the last 32 of them, or all
/// when there were fewer, in the order of the requests.
pub proof fn requests_for_distinct_blocks(indices: Seq<usize>, data: spec_fn(usize) -> Seq<u8>, n: int)
    requires
        0 <= n <= indices.len(),
        forall|i: int, j: int| 0 <= i < j < n ==> indices[i] != indices[j],
    ensures
        spec_loads(indices, data, n) == n,
        spec_after_requests(indices, data, n).len() == if n > BlockCache::MAX_BLOCKS {
            BlockCache::MAX_BLOCKS as int
        } else {
            n
        },
        forall|k: int|
            0 <= k < spec_after_requests(indices, data, n).len() ==> {
                let at = n - spec_after_requests(indices, data, n).len() + k;
                #[trigger] spec_after_requests(indices, data, n)[k] == (indices[at], data(indices[at]))
            },
    decreases n,
{
    if n > 0 {
        requests_for_distinct_blocks(indices, data, n - 1);
        let before = spec_after_requests(indices, data, n - 1);
        let index = indices[n - 1];
        if exists|j: int| 0 <= j < before.len() && before[j].0 == index {
            let j = choose|j: int| 0 <= j < before.len() && before[j].0 == index;
            let at = n - 1 - before.len() + j;
            assert(before[j] == (indices[at], data(indices[at])));
            assert(indices[at] != indices[n - 1]);
        }
        assert(spec_cached(before, index) is None);
        let after = spec_after_requests(indices, data, n);
        assert(after == spec_insert(before, index, data(index)));
        assert forall|k: int| 0 <= k < after.len() implies {
            let at = n - after.len() + k;
            #[trigger] after[k] == (indices[at], data(indices[at]))
        } by {
            let grown = before.push((index, data(index)));
            if grown.len() > BlockCache::MAX_BLOCKS {
                assert(after[k] == grown[k + 1]);
                if k + 1 < before.len() {
                    assert(grown[k + 1] == before[k + 1]);
                }
            } else {
                if k < before.len() {
                    assert(grown[k] == before[k]);
                }
            }
        }
    }
}

/// In a cache that holds no index twice, the data held for the index of a
/// block is the data of that block.
pub proof fn lemma_cached_at(cache: CacheView, j: int)
    requires
        spec_distinct(cache),
        0 <= j < cache.len(),
    ensures
        spec_cached(cache, cache[j].0) == Some(cache[j].1),
{
    let c = choose|c: int| 0 <= c < cache.len() && cache[c].0 == cache[j].0;
    if c < j {
        assert(cache[c].0 != cache[j].0);
    }
    if j < c {
        assert(cache[j].0 != cache[c].0);
    }
}

/// A block that has just been requested with success is in the cache, and
/// the next request for it is answered from there with the same data,
/// whatever the loader would give, and leaves the cache as it is.
pub proof fn request_twice(cache: CacheView, index: usize, first: Seq<u8>, second: Seq<u8>)
    requires
        spec_distinct(cache),
        cache.len() <= BlockCache::MAX_BLOCKS,
    ensures
        spec_cached(spec_request(cache, index, first), index) is Some,
        spec_cached(cache, index) is None ==> spec_cached(spec_request(cache, index, first), index) == Some(
            first,
        ),
        spec_request(spec_request(cache, index, first), index, second) == spec_request(cache, index, first),
{
    if spec_cached(cache, index) is None {
        let grown = cache.push((index, first));
        let after = spec_insert(cache, index, first);
        let last = after.len() - 1;
        assert(after[last] == (index, first));
        assert(after[last].0 == index);
        let c = choose|j: int| 0 <= j < after.len() && after[j].0 == index;
        if c != last {
            if grown.len() > BlockCache::MAX_BLOCKS {
                assert(after[c] == cache[c + 1]);
                assert(cache[c + 1].0 == index);
            } else {
                assert(after[c] == cache[c]);
                assert(cache[c].0 == index);
            }
            assert(spec_position(cache, index) is Some);
        }
    }
}

} // verus!
