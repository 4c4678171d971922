//! The document that remembers, for each generation and platform, which
//! file stood for each archive id when the directory was last walked.

use std::collections::HashMap;
use vstd::prelude::*;
use vstd::string::StringExecFns;
use crate::error::PkgError;
use crate::package::{str_equal, PackagePlatform};
use crate::version::{GameVersion, Version};

verus! {

/// What the cache remembers of one directory of archives.
pub struct PathCacheEntry {
    /// The time at which the directory was last changed when it was walked,
    /// in seconds since the epoch.
    pub timestamp: u64,
    pub version: GameVersion,
    pub platform: PackagePlatform,
    /// The directory.
    pub base_path: String,
    /// The path of the file that stands for each archive id.
    pub paths: HashMap<u16, String>,
}

/// The cache document: what is remembered under each key.
pub struct PathCache {
    /// The version of the document's format.
    pub cache_version: usize,
    pub versions: Vec<(String, PathCacheEntry)>,
}

impl Default for PathCache {
    fn default() -> (c: PathCache)
        ensures
            c.cache_version == PathCache::VERSION,
            c.versions@.len() == 0,
    {
        PathCache::new()
    }
}

/// The key under which a generation and platform are remembered.
pub open spec fn spec_cache_key(version: GameVersion, platform: PackagePlatform) -> Seq<char> {
    version.spec_id() + "_"@ + platform.spec_name()
}

/// The key under which a generation and platform are remembered: the short
/// name of the generation, an underscore, the short name of the platform.
pub fn cache_key(version: GameVersion, platform: PackagePlatform) -> (key: String)
    ensures
        key@ == spec_cache_key(version, platform),
{
    let mut key: String = version.id();
    key.append("_");
    key.append(platform.name());
    key
}

/// The first index below `n` whose slot satisfies `pred`.
pub open spec fn spec_first(versions: Seq<(String, PathCacheEntry)>, n: int, pred: spec_fn(
    (String, PathCacheEntry),
) -> bool) -> Option<int>
    decreases n,
{
    if n <= 0 {
        None
    } else {
        match spec_first(versions, n - 1, pred) {
            Some(i) => Some(i),
            None => if pred(versions[n - 1]) {
                Some(n - 1)
            } else {
                None
            },
        }
    }
}

/// The number of slots below `n` that satisfy `pred`.
pub open spec fn spec_count(versions: Seq<(String, PathCacheEntry)>, n: int, pred: spec_fn(
    (String, PathCacheEntry),
) -> bool) -> int
    decreases n,
{
    if n <= 0 {
        0
    } else {
        spec_count(versions, n - 1, pred) + if pred(versions[n - 1]) {
            1int
        } else {
            0int
        }
    }
}

/// The slot that is looked for: the one under the key of generation and
/// platform when a platform is given; else the only one of the generation,
/// or, when there are several and a directory is given, the only one of
/// them for that directory. Several candidates at the end are an error.
pub open spec fn spec_get_paths(
    versions: Seq<(String, PathCacheEntry)>,
    version: GameVersion,
    platform: Option<PackagePlatform>,
    base_path: Option<Seq<char>>,
) -> Result<Option<int>, PkgError> {
    let n = versions.len() as int;
    match platform {
        Some(p) => Ok(spec_first(versions, n, spec_key_pred(spec_cache_key(version, p)))),
        None => {
            let of_version = spec_scan_pred(version, None);
            if spec_count(versions, n, of_version) <= 1 {
                Ok(spec_first(versions, n, of_version))
            } else {
                match base_path {
                    None => Err(PkgError::CacheOutdated),
                    Some(dir) => {
                        let of_dir = spec_scan_pred(version, Some(dir));
                        if spec_count(versions, n, of_dir) <= 1 {
                            Ok(spec_first(versions, n, of_dir))
                        } else {
                            Err(PkgError::CacheOutdated)
                        }
                    },
                }
            }
        },
    }
}

/// What checking a cache document against a directory comes to: the slot
/// of the entry to use, or why the directory has to be walked again.
///
/// The document must be there and of the current format, it must hold an
/// entry for the generation and platform, and that entry must be for the
/// same directory and not older than the directory's last change.
pub open spec fn spec_validate(
    cache: Option<PathCache>,
    version: GameVersion,
    platform: Option<PackagePlatform>,
    packages_dir: Seq<char>,
    dir_timestamp: u64,
) -> Result<int, PkgError> {
    match cache {
        None => Err(PkgError::NotFound),
        Some(c) => if c.cache_version != PathCache::VERSION {
            Err(PkgError::CacheOutdated)
        } else {
            match spec_get_paths(c.versions@, version, platform, Some(packages_dir)) {
                Ok(Some(i)) => if c.versions@[i].1.timestamp < dir_timestamp {
                    Err(PkgError::CacheOutdated)
                } else if c.versions@[i].1.base_path@ != packages_dir {
                    Err(PkgError::CacheOutdated)
                } else {
                    Ok(i)
                },
                _ => Err(PkgError::NotFound),
            }
        },
    }
}

/// Whether two generations are the same.
pub fn same_version(a: GameVersion, b: GameVersion) -> (r: bool)
    ensures
        r == (a == b),
{
    a == b
}

impl PathCache {
    /// The version of the document's format that is written and accepted.
    pub const VERSION: usize = 4;

    /// An empty document of the current format.
    pub fn new() -> (c: PathCache)
        ensures
            c.cache_version == Self::VERSION,
            c.versions@.len() == 0,
    {
        PathCache { cache_version: Self::VERSION, versions: Vec::new() }
    }

    fn find_key(&self, key: &str) -> (r: Option<usize>)
        ensures
            match r {
                Some(i) => spec_first(self.versions@, self.versions@.len() as int, spec_key_pred(key@)) == Some(
                    i as int,
                ) && i < self.versions@.len() && self.versions@[i as int].0@ == key@,
                None => spec_first(self.versions@, self.versions@.len() as int, spec_key_pred(key@)) is None,
            },
    {
        let ghost pred = spec_key_pred(key@);
        let mut i: usize = 0;
        while i < self.versions.len()
            invariant
                i <= self.versions@.len(),
                pred == spec_key_pred(key@),
                spec_first(self.versions@, i as int, pred) is None,
            decreases self.versions.len() - i,
        {
            if str_equal(self.versions[i].0.as_str(), key) {
                proof {
                    lemma_first_stays(self.versions@, i + 1, self.versions@.len() as int, pred);
                }
                return Some(i);
            }
            i = i + 1;
        }
        None
    }

    /// Counts the entries of a generation, or of a generation and directory,
    /// and finds the first of them.
    fn scan(&self, version: GameVersion, base_path: Option<&str>) -> (r: (usize, Option<usize>))
        ensures
            r.0 == spec_count(
                self.versions@,
                self.versions@.len() as int,
                spec_scan_pred(version, spec_view_of(base_path)),
            ),
            match r.1 {
                Some(i) => i < self.versions@.len() && spec_first(
                    self.versions@,
                    self.versions@.len() as int,
                    spec_scan_pred(version, spec_view_of(base_path)),
                ) == Some(i as int),
                None => spec_first(
                    self.versions@,
                    self.versions@.len() as int,
                    spec_scan_pred(version, spec_view_of(base_path)),
                ) is None,
            },
    {
        let ghost pred = spec_scan_pred(version, spec_view_of(base_path));
        let mut count: usize = 0;
        let mut first: Option<usize> = None;
        let mut i: usize = 0;
        while i < self.versions.len()
            invariant
                i <= self.versions@.len(),
                pred == spec_scan_pred(version, spec_view_of(base_path)),
                count == spec_count(self.versions@, i as int, pred),
                count <= i,
                match first {
                    Some(k) => k < i && spec_first(self.versions@, i as int, pred) == Some(k as int),
                    None => spec_first(self.versions@, i as int, pred) is None,
                },
            decreases self.versions.len() - i,
        {
            let entry: &PathCacheEntry = &self.versions[i].1;
            let in_dir: bool = match base_path {
                Some(dir) => str_equal(entry.base_path.as_str(), dir),
                None => true,
            };
            if same_version(entry.version, version) && in_dir {
                count = count + 1;
                if first.is_none() {
                    first = Some(i);
                }
            }
            i = i + 1;
        }
        (count, first)
    }

    /// The entry for a generation and platform.
    ///
    /// With a platform it is the entry under their key. Without one it is
    /// the only entry of the generation; when there are several, the only
    /// one among them for the directory `base_path`. `CacheOutdated` when
    /// several entries remain to choose from.
    pub fn get_paths(&self, version: GameVersion, platform: Option<PackagePlatform>, base_path: Option<&str>) -> (r:
        Result<Option<&PathCacheEntry>, PkgError>)
        ensures
            match r {
                Ok(Some(entry)) => spec_get_paths(self.versions@, version, platform, spec_view_of(base_path))
                    matches Ok(Some(i)) && 0 <= i < self.versions@.len() && *entry == self.versions@[i].1,
                Ok(None) => spec_get_paths(self.versions@, version, platform, spec_view_of(base_path)) == Ok::<
                    Option<int>,
                    PkgError,
                >(None),
                Err(e) => spec_get_paths(self.versions@, version, platform, spec_view_of(base_path)) == Err::<
                    Option<int>,
                    PkgError,
                >(e),
            },
    {
        match platform {
            Some(p) => {
                let key: String = cache_key(version, p);
                match self.find_key(key.as_str()) {
                    Some(i) => Ok(Some(&self.versions[i].1)),
                    None => Ok(None),
                }
            },
            None => {
                let (count, first) = self.scan(version, None);
                if count <= 1 {
                    return match first {
                        Some(i) => Ok(Some(&self.versions[i].1)),
                        None => Ok(None),
                    };
                }
                match base_path {
                    None => Err(PkgError::CacheOutdated),
                    Some(dir) => {
                        let (count, first) = self.scan(version, Some(dir));
                        if count <= 1 {
                            match first {
                                Some(i) => Ok(Some(&self.versions[i].1)),
                                None => Ok(None),
                            }
                        } else {
                            Err(PkgError::CacheOutdated)
                        }
                    },
                }
            },
        }
    }

    /// Checks the document against a directory and gives the paths that it
    /// remembers for it.
    ///
    /// `NotFound` without a document or without an entry for the generation
    /// and platform; `CacheOutdated` for a document of another format, for
    /// an entry of another directory, and for one that is older than the
    /// directory's last change.
    pub fn validate_cache(
        cache: Option<&PathCache>,
        version: GameVersion,
        platform: Option<PackagePlatform>,
        packages_dir: &str,
        dir_timestamp: u64,
    ) -> (r: Result<HashMap<u16, String>, PkgError>)
        ensures
            match r {
                Ok(paths) => spec_validate(
                    match cache {
                        Some(c) => Some(*c),
                        None => None,
                    },
                    version,
                    platform,
                    packages_dir@,
                    dir_timestamp,
                ) matches Ok(i) && paths@ == cache.unwrap().versions@[i].1.paths@,
                Err(e) => spec_validate(
                    match cache {
                        Some(c) => Some(*c),
                        None => None,
                    },
                    version,
                    platform,
                    packages_dir@,
                    dir_timestamp,
                ) == Err::<int, PkgError>(e),
            },
    {
        let c: &PathCache = match cache {
            Some(c) => c,
            None => {
                return Err(PkgError::NotFound);
            },
        };
        if c.cache_version != Self::VERSION {
            return Err(PkgError::CacheOutdated);
        }
        match c.get_paths(version, platform, Some(packages_dir)) {
            Ok(Some(entry)) => {
                if entry.timestamp < dir_timestamp {
                    Err(PkgError::CacheOutdated)
                } else if !str_equal(entry.base_path.as_str(), packages_dir) {
                    Err(PkgError::CacheOutdated)
                } else {
                    Ok(entry.paths.clone())
                }
            },
            _ => Err(PkgError::NotFound),
        }
    }

    /// Puts `entry` under `key`, in place of what stood there.
    pub fn insert(&mut self, key: String, entry: PathCacheEntry)
        ensures
            final(self).cache_version == old(self).cache_version,
            match spec_first(old(self).versions@, old(self).versions@.len() as int, spec_key_pred(key@)) {
                Some(i) => final(self).versions@ == old(self).versions@.update(i, (key, entry)),
                None => final(self).versions@ == old(self).versions@.push((key, entry)),
            },
    {
        match self.find_key(key.as_str()) {
            Some(i) => {
                self.versions[i] = (key, entry);
            },
            None => {
                self.versions.push((key, entry));
            },
        }
    }
}

/// The slots of a generation, or those of a generation and a directory.
pub open spec fn spec_scan_pred(version: GameVersion, base_path: Option<Seq<char>>) -> spec_fn(
    (String, PathCacheEntry),
) -> bool {
    |slot: (String, PathCacheEntry)|
        slot.1.version == version && match base_path {
            Some(dir) => slot.1.base_path@ == dir,
            None => true,
        }
}

/// The slots under a key.
pub open spec fn spec_key_pred(key: Seq<char>) -> spec_fn((String, PathCacheEntry)) -> bool {
    |slot: (String, PathCacheEntry)| slot.0@ == key
}

/// The text of a directory that may be given.
pub open spec fn spec_view_of(base_path: Option<&str>) -> Option<Seq<char>> {
    match base_path {
        Some(d) => Some(d@),
        None => None,
    }
}

/// A first slot found below `n` is the first one below any greater bound.
pub proof fn lemma_first_stays(versions: Seq<(String, PathCacheEntry)>, n: int, m: int, pred: spec_fn(
    (String, PathCacheEntry),
) -> bool)
    requires
        0 <= n <= m,
        spec_first(versions, n, pred) is Some,
    ensures
        spec_first(versions, m, pred) == spec_first(versions, n, pred),
    decreases m - n,
{
    if n < m {
        lemma_first_stays(versions, n, m - 1, pred);
    }
}

/// An entry that is older than the last change of its directory is never
/// used, whatever else the document holds.
pub proof fn stale_entry_is_rejected(
    cache: PathCache,
    version: GameVersion,
    platform: Option<PackagePlatform>,
    packages_dir: Seq<char>,
    dir_timestamp: u64,
)
    ensures
        spec_validate(Some(cache), version, platform, packages_dir, dir_timestamp) matches Ok(i) ==> {
            &&& cache.cache_version == PathCache::VERSION
            &&& cache.versions@[i].1.timestamp >= dir_timestamp
            &&& cache.versions@[i].1.base_path@ == packages_dir
        },
{
}

} // verus!
