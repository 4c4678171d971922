use destiny_pkg::block_cache::BlockCache;
use destiny_pkg::error::PkgError;
use std::cell::Cell;

fn block(index: usize) -> Vec<u8> {
    vec![(index % 251) as u8; 16 + index % 5]
}

#[test]
fn cache_stabilises_at_its_bound() {
    let loads = Cell::new(0usize);
    let mut cache = BlockCache::new();
    assert_eq!(BlockCache::MAX_BLOCKS, 32);
    let n = 100;
    for index in 0..n {
        let data = cache
            .get(index, |i| {
                loads.set(loads.get() + 1);
                Ok(block(i))
            })
            .unwrap();
        assert_eq!(*data, block(index));
        assert_eq!(cache.len(), (index + 1).min(32));
    }
    assert_eq!(cache.len(), 32);
    assert_eq!(loads.get(), n);
}

#[test]
fn cached_block_is_not_loaded_again() {
    let loads = Cell::new(0usize);
    let mut cache = BlockCache::new();
    let first = cache
        .get(7, |i| {
            loads.set(loads.get() + 1);
            Ok(block(i))
        })
        .unwrap();
    let second = cache
        .get(7, |_| {
            loads.set(loads.get() + 1);
            Ok(vec![0xee; 3])
        })
        .unwrap();
    assert_eq!(loads.get(), 1);
    assert_eq!(*first, *second);
    assert_eq!(*second, block(7));
    assert_eq!(cache.len(), 1);
}

#[test]
fn oldest_block_leaves_first() {
    let mut cache = BlockCache::new();
    for index in 0..32usize {
        cache.get(index, |i| Ok(block(i))).unwrap();
    }
    // A hit does not make a block younger.
    cache.get(0, |_| Ok(vec![])).unwrap();
    cache.get(100, |i| Ok(block(i))).unwrap();
    assert_eq!(cache.len(), 32);
    assert!(cache.lookup(0).is_none());
    assert!(cache.lookup(1).is_some());
    assert_eq!(*cache.lookup(100).unwrap(), block(100));
    cache.get(101, |i| Ok(block(i))).unwrap();
    assert!(cache.lookup(1).is_none());
    assert!(cache.lookup(2).is_some());
}

#[test]
fn loader_error_is_handed_on() {
    let mut cache = BlockCache::new();
    cache.get(1, |i| Ok(block(i))).unwrap();
    let r = cache.get(2, |_| Err(PkgError::CodecFailed));
    assert!(matches!(r, Err(PkgError::CodecFailed)));
    assert_eq!(cache.len(), 1);
    assert!(cache.lookup(2).is_none());
    // The next request loads it.
    assert_eq!(*cache.get(2, |i| Ok(block(i))).unwrap(), block(2));
    assert_eq!(cache.len(), 2);
}

#[test]
fn inserted_block_is_found() {
    let mut cache = BlockCache::new();
    assert_eq!(cache.len(), 0);
    assert!(cache.lookup(5).is_none());
    let handle = cache.insert(5, vec![1, 2, 3]);
    assert_eq!(*handle, vec![1, 2, 3]);
    assert_eq!(*cache.lookup(5).unwrap(), vec![1, 2, 3]);
    assert_eq!(cache.len(), 1);
}
