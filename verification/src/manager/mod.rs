//! The fleet of archives under one directory: which file stands for each
//! archive id, the index over all their entries, and reading by tag.

pub mod discovery;
pub mod lookup_cache;
pub mod package_path;
pub mod path_cache;

pub use lookup_cache::{HashTableEntryShort, TagLookupIndex};
pub use package_path::PackagePath;

use std::collections::HashMap;
use vstd::prelude::*;
use vstd::string::StringExecFns;
use crate::crypto::KeyTable;
use crate::d2_shared::PackageNamedTagEntry;
use crate::dispatch::{spec_patched_read, AnyPackage};
use crate::error::PkgError;
use crate::manager::discovery::{select_latest, spec_is_latest};
use crate::manager::lookup_cache::{
    spec_alias_index, spec_all_named_tags, spec_entries_index, spec_fleet_matching, spec_reverse_index,
    EntryFilter, PackageTables,
};
use crate::manager::path_cache::{cache_key, spec_cache_key, PathCacheEntry};
use crate::oodle::{spec_codec, spec_result_view, CodecOutcome, OodleVersion};
use crate::package::{spec_is_entry, str_equal, Package, PackagePlatform, UEntryHeader};
use crate::tag::{spec_tag_entry_index, spec_tag_pkg_id, TagHash, TagHash64};
use crate::version::{GameVersion, Version};

verus! {

broadcast use vstd::std_specs::hash::group_hash_axioms;

/// The first of the first `n` named tags with the given name and class.
pub open spec fn spec_find_named_tag(tags: Seq<PackageNamedTagEntry>, n: int, name: Seq<char>, class_hash: u32) -> Option<
    TagHash,
>
    decreases n,
{
    if n <= 0 {
        None
    } else {
        match spec_find_named_tag(tags, n - 1, name, class_hash) {
            Some(t) => Some(t),
            None => if tags[n - 1].name@ == name && tags[n - 1].class_hash == class_hash {
                Some(tags[n - 1].hash)
            } else {
                None
            },
        }
    }
}

/// The name of the first of the first `n` named tags with the given tag.
pub open spec fn spec_find_tag_name(tags: Seq<PackageNamedTagEntry>, n: int, tag: TagHash) -> Option<Seq<char>>
    decreases n,
{
    if n <= 0 {
        None
    } else {
        match spec_find_tag_name(tags, n - 1, tag) {
            Some(t) => Some(t),
            None => if tags[n - 1].hash == tag {
                Some(tags[n - 1].name@)
            } else {
                None
            },
        }
    }
}

/// The names and tags of those of the first `n` named tags that have the
/// given class, in their order.
pub open spec fn spec_named_by_class(tags: Seq<PackageNamedTagEntry>, n: int, class_hash: u32) -> Seq<
    (Seq<char>, TagHash),
>
    decreases n,
{
    if n <= 0 {
        Seq::empty()
    } else {
        let rest = spec_named_by_class(tags, n - 1, class_hash);
        if tags[n - 1].class_hash == class_hash {
            rest.push((tags[n - 1].name@, tags[n - 1].hash))
        } else {
            rest
        }
    }
}

/// The names and tags of a list.
pub open spec fn spec_names_view(list: Seq<(String, TagHash)>) -> Seq<(Seq<char>, TagHash)> {
    Seq::new(list.len(), |i: int| (list[i].0@, list[i].1))
}

/// The fleet of archives under one directory.
pub struct PackageManager {
    pub package_dir: String,
    /// The file that stands for each archive id.
    pub package_paths: HashMap<u16, PackagePath>,
    /// The archive ids that have a file, each once.
    pub package_ids: Vec<u16>,
    pub version: GameVersion,
    pub platform: PackagePlatform,
    /// The index over the entries of all archives.
    pub lookup: TagLookupIndex,
    /// The keys that archives are opened with.
    pub keys: KeyTable,
    /// The archives that are open for reading.
    pub pkgs: HashMap<u16, AnyPackage>,
}

impl PackageManager {
    /// The index is well formed, and so is every open archive.
    pub open spec fn wf(&self) -> bool {
        &&& self.lookup.wf()
        &&& forall|id: u16| self.pkgs@.contains_key(id) ==> (#[trigger] self.pkgs@[id]).wf()
        &&& forall|id: u16| self.package_paths@.contains_key(id) <==> self.package_ids@.contains(id)
    }

    /// The platform of a fleet, from that of its first archive, when that
    /// could be opened, and the platform part of the archive's file name:
    /// the archive's own platform counts; without it the name must carry one
    /// of the platforms that have a short name.
    pub fn choose_platform(opened: Option<PackagePlatform>, name: &str) -> (r: Result<PackagePlatform, PkgError>)
        ensures
            r == match opened {
                Some(p) => Ok::<PackagePlatform, PkgError>(p),
                None => match PackagePlatform::spec_parse(name@) {
                    Some(p) => Ok(p),
                    None => Err(PkgError::Unimplemented),
                },
            },
    {
        match opened {
            Some(p) => Ok(p),
            None => match PackagePlatform::parse(name) {
                Some(p) => Ok(p),
                None => Err(PkgError::Unimplemented),
            },
        }
    }

    /// The platform of a fleet: that of its first archive when that can be
    /// read through `open` and opened, else the one that the archive's file
    /// name carries.
    pub fn detect_platform<F>(version: GameVersion, first: &PackagePath, keys: &KeyTable, open: &F) -> (r: Result<
        PackagePlatform,
        PkgError,
    >) where F: Fn(&str) -> Option<Vec<u8>>
        requires
            forall|path: &str| (*open).requires((path,)),
        ensures
            spec_detected(version, *first, keys@, open, r),
            r matches Err(e) ==> e == PkgError::Unimplemented && PackagePlatform::spec_parse(first.platform@)
                is None,
            PackagePlatform::spec_parse(first.platform@) is Some ==> r is Ok,
    {
        let path: &str = first.path.as_str();
        let read: Option<Vec<u8>> = (*open)(path);
        proof {
            assert((*open).ensures((path,), read));
        }
        let ghost image: Option<Seq<u8>> = match &read {
            Some(i) => Some(i@),
            None => None,
        };
        let opened: Option<AnyPackage> = match read {
            Some(image) => match version.open(path, image, keys) {
                Ok(pkg) => Some(pkg),
                Err(_) => None,
            },
            None => None,
        };
        let platform: Option<PackagePlatform> = match opened {
            Some(pkg) => {
                let p = pkg.platform();
                proof {
                    assert(version.spec_opened(path@, image->0, keys@, Ok(pkg)));
                    assert(spec_platform_of(version, first.path@, image->0, keys@, Some(p)));
                }
                Some(p)
            },
            None => None,
        };
        let r = Self::choose_platform(platform, first.platform.as_str());
        proof {
            assert(spec_detected_from(version, *first, keys@, image, r));
            assert(spec_detected(version, *first, keys@, open, r));
        }
        r
    }

    /// The parts of the path that is kept for each archive id: the latest of
    /// the candidates with the id. The ids are listed in the order in which
    /// they first occur among the candidates.
    pub fn latest_package_paths(packages: &Vec<(u16, String)>) -> (r: (HashMap<u16, PackagePath>, Vec<u16>))
        ensures
            exists|latest: Map<u16, String>| #[trigger]
                spec_is_latest(packages@, packages@.len() as int, latest) && spec_paths_of(r.0@, latest),
            forall|id: u16| r.0@.contains_key(id) <==> r.1@.contains(id),
            packages@.len() > 0 ==> r.1@.len() > 0 && r.1@[0] == packages@[0].0,
            packages@.len() == 0 ==> r.1@.len() == 0,
    {
        let latest: HashMap<u16, String> = select_latest(packages);
        let mut package_paths: HashMap<u16, PackagePath> = HashMap::new();
        let mut package_ids: Vec<u16> = Vec::new();
        let mut i: usize = 0;
        while i < packages.len()
            invariant
                i <= packages@.len(),
                spec_is_latest(packages@, packages@.len() as int, latest@),
                forall|id: u16| #[trigger] package_paths@.contains_key(id) ==> latest@.contains_key(id),
                forall|id: u16|
                    package_paths@.contains_key(id) ==> (#[trigger] package_paths@[id]).path@ == latest@[id]@,
                forall|k: int|
                    0 <= k < i ==> package_paths@.contains_key((#[trigger] packages@[k]).0),
                forall|id: u16| package_paths@.contains_key(id) <==> package_ids@.contains(id),
                i == 0 ==> package_ids@.len() == 0,
                i > 0 ==> package_ids@.len() > 0 && package_ids@[0] == packages@[0].0,
            decreases packages.len() - i,
        {
            let id: u16 = packages[i].0;
            assert(packages@[i as int].0 == id);
            assert(latest@.contains_key(id));
            if !package_paths.contains_key(&id) {
                match latest.get(&id) {
                    Some(path) => {
                        let parsed: PackagePath = PackagePath::parse_with_defaults(path.as_str());
                        let ghost ids_before = package_ids@;
                        package_paths.insert(id, parsed);
                        package_ids.push(id);
                        proof {
                            assert forall|k: u16| package_paths@.contains_key(k) <==> package_ids@.contains(
                                k,
                            ) by {
                                if ids_before.contains(k) {
                                    let j = choose|j: int| 0 <= j < ids_before.len() && ids_before[j] == k;
                                    assert(package_ids@[j] == k);
                                }
                                if k == id {
                                    assert(package_ids@[ids_before.len() as int] == k);
                                }
                                if package_ids@.contains(k) && k != id {
                                    let j = choose|j: int| 0 <= j < package_ids@.len() && package_ids@[j] == k;
                                    assert(ids_before[j] == k);
                                }
                            }
                        }
                    },
                    None => {},
                }
            } else {
                proof {
                    if i == 0 {
                        assert(package_ids@.contains(id));
                    }
                }
            }
            i = i + 1;
        }
        proof {
            assert forall|id: u16| package_paths@.contains_key(id) <==> latest@.contains_key(id) by {
                if latest@.contains_key(id) {
                    let k = choose|k: int| 0 <= k < packages@.len() && (#[trigger] packages@[k]).0 == id;
                    assert(package_paths@.contains_key(packages@[k].0));
                }
            }
            assert forall|id: u16| package_paths@.contains_key(id) implies (#[trigger] package_paths@[id]).path@
                == latest@[id]@ by {}
            assert(spec_paths_of(package_paths@, latest@));
        }
        (package_paths, package_ids)
    }

    /// The fleet of the given archives, of which the latest file of each
    /// archive id is kept. The index is empty until it is built. The
    /// platform is that of the archive of the first candidate's id.
    ///
    /// `NotFound` without archives. `Unimplemented` when the platform cannot
    /// be told from that archive or its file name: the archive could not be
    /// read through `open` or opened, and its file name carries none of the
    /// platforms that have a short name.
    pub fn new<F>(packages_dir: &str, version: GameVersion, packages: &Vec<(u16, String)>, keys: KeyTable, open: &F) -> (r:
        Result<PackageManager, PkgError>) where F: Fn(&str) -> Option<Vec<u8>>
        requires
            forall|path: &str| (*open).requires((path,)),
        ensures
            packages@.len() == 0 <==> r matches Err(PkgError::NotFound),
            r matches Ok(m) ==> {
                &&& m.wf()
                &&& m.package_dir@ == packages_dir@
                &&& m.version == version
                &&& m.keys == keys
                &&& m.pkgs@ == Map::<u16, AnyPackage>::empty()
                &&& m.lookup.package_ids@.len() == 0
                &&& m.lookup.named_tags@.len() == 0
                &&& exists|latest: Map<u16, String>| #[trigger]
                    spec_is_latest(packages@, packages@.len() as int, latest) && spec_paths_of(
                        m.package_paths@,
                        latest,
                    )
                &&& m.package_ids@.len() > 0 && m.package_ids@[0] == packages@[0].0
                &&& spec_detected(version, m.package_paths@[packages@[0].0], keys@, open, Ok(m.platform))
            },
            r matches Err(e) ==> e == PkgError::NotFound || e == PkgError::Unimplemented,
            r matches Err(PkgError::Unimplemented) ==> spec_platform_untold(version, packages@, keys@, open),
    {
        if packages.len() == 0 {
            return Err(PkgError::NotFound);
        }
        let (package_paths, package_ids) = Self::latest_package_paths(packages);
        assert(package_ids@.contains(package_ids@[0]));
        let platform: PackagePlatform = match package_paths.get(&package_ids[0]) {
            Some(first) => match Self::detect_platform(version, first, &keys, open) {
                Ok(p) => p,
                Err(_) => {
                    return Err(PkgError::Unimplemented);
                },
            },
            None => {
                return Err(PkgError::Unimplemented);
            },
        };
        Ok(
            PackageManager {
                package_dir: String::from_str(packages_dir),
                package_paths,
                package_ids,
                version,
                platform,
                lookup: TagLookupIndex::new(),
                keys,
                pkgs: HashMap::new(),
            },
        )
    }

    /// The key under which the fleet's generation and platform are
    /// remembered in the caches.
    pub fn cache_key(&self) -> (key: String)
        ensures
            key@ == spec_cache_key(self.version, self.platform),
    {
        cache_key(self.version, self.platform)
    }

    /// Builds the index over the given archives, which enter it in their
    /// order, in place of the index that was there.
    pub fn build_lookup_tables(&mut self, tables: Vec<PackageTables>)
        requires
            old(self).wf(),
        ensures
            final(self).wf(),
            final(self).lookup.spec_entries() == spec_entries_index(tables@, tables@.len() as int),
            final(self).lookup.tag64_entries@ == spec_alias_index(tables@, tables@.len() as int),
            final(self).lookup.tag32_to_tag64@ == spec_reverse_index(tables@, tables@.len() as int),
            final(self).lookup.named_tags@ == spec_all_named_tags(tables@, tables@.len() as int),
            final(self).pkgs == old(self).pkgs,
            final(self).package_paths == old(self).package_paths,
            final(self).package_ids == old(self).package_ids,
            final(self).version == old(self).version,
            final(self).platform == old(self).platform,
            final(self).package_dir == old(self).package_dir,
    {
        self.lookup = TagLookupIndex::build(tables);
    }

    /// What the path cache remembers of this fleet, whose directory was last
    /// changed at `timestamp`: the path of the file of each archive id.
    pub fn cache_entry(&self, timestamp: u64) -> (entry: PathCacheEntry)
        requires
            self.wf(),
        ensures
            entry.timestamp == timestamp,
            entry.version == self.version,
            entry.platform == self.platform,
            entry.base_path@ == self.package_dir@,
            forall|id: u16| entry.paths@.contains_key(id) <==> self.package_paths@.contains_key(id),
            forall|id: u16|
                entry.paths@.contains_key(id) ==> (#[trigger] entry.paths@[id])@ == self.package_paths@[id].path@,
    {
        let mut paths: HashMap<u16, String> = HashMap::new();
        let mut i: usize = 0;
        while i < self.package_ids.len()
            invariant
                self.wf(),
                i <= self.package_ids@.len(),
                forall|id: u16|
                    paths@.contains_key(id) <==> exists|k: int|
                        0 <= k < i && #[trigger] self.package_ids@[k] == id,
                forall|id: u16| paths@.contains_key(id) ==> (#[trigger] paths@[id])@ == self.package_paths@[id].path@,
            decreases self.package_ids.len() - i,
        {
            let id: u16 = self.package_ids[i];
            assert(self.package_ids@.contains(id));
            let path: String = match self.package_paths.get(&id) {
                Some(p) => p.path.clone(),
                None => String::from_str(""),
            };
            let ghost before = paths@;
            paths.insert(id, path);
            proof {
                assert forall|x: u16| paths@.contains_key(x) <==> exists|k: int|
                    0 <= k < i + 1 && #[trigger] self.package_ids@[k] == x by {
                    if before.contains_key(x) {
                        let k = choose|k: int| 0 <= k < i && #[trigger] self.package_ids@[k] == x;
                        assert(0 <= k < i + 1 && self.package_ids@[k] == x);
                    }
                    if x == id {
                        assert(self.package_ids@[i as int] == x);
                    }
                    if exists|k: int| 0 <= k < i + 1 && #[trigger] self.package_ids@[k] == x {
                        let k = choose|k: int| 0 <= k < i + 1 && #[trigger] self.package_ids@[k] == x;
                        if k < i {
                            assert(before.contains_key(x));
                        }
                    }
                }
            }
            i = i + 1;
        }
        proof {
            assert forall|id: u16| paths@.contains_key(id) <==> self.package_paths@.contains_key(id) by {
                if paths@.contains_key(id) {
                    let k = choose|k: int| 0 <= k < i && #[trigger] self.package_ids@[k] == id;
                    assert(self.package_ids@.contains(id));
                }
                if self.package_paths@.contains_key(id) {
                    assert(self.package_ids@.contains(id));
                    let k = choose|k: int| 0 <= k < self.package_ids@.len() && self.package_ids@[k] == id;
                    assert(0 <= k < i && self.package_ids@[k] == id);
                }
            }
        }
        PathCacheEntry {
            timestamp,
            version: self.version,
            platform: self.platform,
            base_path: self.package_dir.clone(),
            paths,
        }
    }

    /// The entries of all archives with the given reference, each with its
    /// tag: archive after archive, and within an archive in the order of its
    /// table.
    pub fn get_all_by_reference(&self, reference: u32) -> (r: Vec<(TagHash, UEntryHeader)>)
        requires
            self.wf(),
        ensures
            r@ == spec_fleet_matching(
                self.lookup.package_ids@,
                self.lookup.tag32_entries_by_pkg@,
                self.lookup.package_ids@.len() as int,
                EntryFilter::Reference(reference),
            ),
    {
        self.lookup.get_all_matching(EntryFilter::Reference(reference))
    }

    /// The entries of all archives with the given type and, when one is
    /// given, subtype, each with its tag.
    pub fn get_all_by_type(&self, etype: u8, esubtype: Option<u8>) -> (r: Vec<(TagHash, UEntryHeader)>)
        requires
            self.wf(),
        ensures
            r@ == spec_fleet_matching(
                self.lookup.package_ids@,
                self.lookup.tag32_entries_by_pkg@,
                self.lookup.package_ids@.len() as int,
                EntryFilter::Type(etype, esubtype),
            ),
    {
        self.lookup.get_all_matching(EntryFilter::Type(etype, esubtype))
    }

    /// The entry that a tag names, from the index.
    pub fn get_entry(&self, tag: TagHash) -> (r: Option<UEntryHeader>)
        ensures
            r == if self.lookup.tag32_entries_by_pkg@.contains_key(spec_tag_pkg_id(tag.0)) && spec_tag_entry_index(
                tag.0,
            ) < self.lookup.tag32_entries_by_pkg@[spec_tag_pkg_id(tag.0)]@.len() {
                Some(
                    self.lookup.tag32_entries_by_pkg@[spec_tag_pkg_id(tag.0)]@[spec_tag_entry_index(
                        tag.0,
                    ) as int],
                )
            } else {
                None
            },
    {
        let pkg_id: u16 = tag.pkg_id();
        let index: usize = tag.entry_index() as usize;
        match self.lookup.tag32_entries_by_pkg.get(&pkg_id) {
            Some(entries) => {
                if index < entries.len() {
                    Some(entries[index])
                } else {
                    None
                }
            },
            None => None,
        }
    }

    /// The tag of the first named tag with the given name and class.
    pub fn get_named_tag(&self, name: &str, class_hash: u32) -> (r: Option<TagHash>)
        ensures
            r == spec_find_named_tag(
                self.lookup.named_tags@,
                self.lookup.named_tags@.len() as int,
                name@,
                class_hash,
            ),
    {
        let tags: &Vec<PackageNamedTagEntry> = &self.lookup.named_tags;
        let mut i: usize = 0;
        while i < tags.len()
            invariant
                i <= tags@.len(),
                tags@ == self.lookup.named_tags@,
                spec_find_named_tag(tags@, i as int, name@, class_hash) is None,
            decreases tags.len() - i,
        {
            if tags[i].class_hash == class_hash && str_equal(tags[i].name.as_str(), name) {
                proof {
                    lemma_found_named_tag(tags@, i + 1, tags@.len() as int, name@, class_hash);
                }
                return Some(tags[i].hash);
            }
            i = i + 1;
        }
        None
    }

    /// The names and tags of the named tags with the given class, in the
    /// order of the index.
    pub fn get_named_tags_by_class(&self, class_hash: u32) -> (r: Vec<(String, TagHash)>)
        ensures
            spec_names_view(r@) == spec_named_by_class(
                self.lookup.named_tags@,
                self.lookup.named_tags@.len() as int,
                class_hash,
            ),
    {
        let tags: &Vec<PackageNamedTagEntry> = &self.lookup.named_tags;
        let mut out: Vec<(String, TagHash)> = Vec::new();
        let mut i: usize = 0;
        assert(spec_names_view(out@) =~= spec_named_by_class(tags@, 0, class_hash));
        while i < tags.len()
            invariant
                i <= tags@.len(),
                tags@ == self.lookup.named_tags@,
                spec_names_view(out@) == spec_named_by_class(tags@, i as int, class_hash),
            decreases tags.len() - i,
        {
            if tags[i].class_hash == class_hash {
                out.push((tags[i].name.clone(), tags[i].hash));
                assert(spec_names_view(out@) =~= spec_named_by_class(tags@, i + 1, class_hash));
            }
            i = i + 1;
        }
        out
    }

    /// The name of the first named tag with the given tag.
    pub fn get_tag_name(&self, tag: TagHash) -> (r: Option<String>)
        ensures
            match r {
                Some(name) => spec_find_tag_name(
                    self.lookup.named_tags@,
                    self.lookup.named_tags@.len() as int,
                    tag,
                ) == Some(name@),
                None => spec_find_tag_name(
                    self.lookup.named_tags@,
                    self.lookup.named_tags@.len() as int,
                    tag,
                ) is None,
            },
    {
        let tags: &Vec<PackageNamedTagEntry> = &self.lookup.named_tags;
        let mut i: usize = 0;
        while i < tags.len()
            invariant
                i <= tags@.len(),
                tags@ == self.lookup.named_tags@,
                spec_find_tag_name(tags@, i as int, tag) is None,
            decreases tags.len() - i,
        {
            if tags[i].hash.0 == tag.0 {
                proof {
                    lemma_found_tag_name(tags@, i + 1, tags@.len() as int, tag);
                }
                return Some(tags[i].name.clone());
            }
            i = i + 1;
        }
        None
    }

    /// The 64-bit alias of a tag, from the index.
    pub fn get_tag64_for_tag32(&self, tag: TagHash) -> (r: Option<TagHash64>)
        ensures
            r == if self.lookup.tag32_to_tag64@.contains_key(tag.0) {
                Some(self.lookup.tag32_to_tag64@[tag.0])
            } else {
                None
            },
    {
        match self.lookup.tag32_to_tag64.get(&tag.0) {
            Some(alias) => Some(*alias),
            None => None,
        }
    }

    /// Makes sure that the archive with the given id is open: it is read
    /// through `open` and opened unless it is open already.
    ///
    /// `NotFound` when no file stands for the id or the file cannot be read;
    /// else the error of opening it.
    pub fn get_or_load_pkg<F>(&mut self, pkg_id: u16, open: &F) -> (r: Result<(), PkgError>) where
        F: Fn(&str) -> Option<Vec<u8>>,

        requires
            old(self).wf(),
            forall|path: &str| (*open).requires((path,)),
        ensures
            final(self).wf(),
            final(self).lookup == old(self).lookup,
            final(self).package_paths == old(self).package_paths,
            final(self).package_ids == old(self).package_ids,
            final(self).version == old(self).version,
            final(self).platform == old(self).platform,
            final(self).package_dir == old(self).package_dir,
            old(self).pkgs@.contains_key(pkg_id) ==> r is Ok && final(self).pkgs@ == old(self).pkgs@,
            !old(self).pkgs@.contains_key(pkg_id) && !old(self).package_paths@.contains_key(pkg_id) ==> r
                == Err::<(), PkgError>(PkgError::NotFound),
            !old(self).pkgs@.contains_key(pkg_id) && old(self).package_paths@.contains_key(pkg_id)
                ==> spec_loaded(
                old(self).version,
                old(self).package_paths@[pkg_id].path@,
                old(self).keys@,
                open,
                match r {
                    Ok(()) => Ok(final(self).pkgs@[pkg_id]),
                    Err(e) => Err(e),
                },
            ),
            r is Ok ==> final(self).pkgs@.contains_key(pkg_id) && final(self).pkgs@.remove(pkg_id) == old(
                self,
            ).pkgs@.remove(pkg_id),
            r is Err ==> final(self).pkgs@ == old(self).pkgs@,
    {
        if self.pkgs.contains_key(&pkg_id) {
            assert(self.pkgs@.remove(pkg_id) == old(self).pkgs@.remove(pkg_id));
            return Ok(());
        }
        let opened: Result<AnyPackage, PkgError> = match self.package_paths.get(&pkg_id) {
            None => Err(PkgError::NotFound),
            Some(package_path) => {
                let path: &str = package_path.path.as_str();
                let read: Option<Vec<u8>> = (*open)(path);
                proof {
                    assert((*open).ensures((path,), read));
                }
                let opened: Result<AnyPackage, PkgError> = match read {
                    None => Err(PkgError::NotFound),
                    Some(image) => {
                        let ghost view = image@;
                        let opened = self.version.open(path, image, &self.keys);
                        proof {
                            assert(self.version.spec_opened(path@, view, self.keys@, opened));
                        }
                        opened
                    },
                };
                proof {
                    assert(spec_loaded(self.version, path@, self.keys@, open, opened));
                }
                opened
            },
        };
        match opened {
            Ok(package) => {
                self.pkgs.insert(pkg_id, package);
                proof {
                    assert(self.pkgs@.remove(pkg_id) =~= old(self).pkgs@.remove(pkg_id));
                }
                Ok(())
            },
            Err(e) => Err(e),
        }
    }

    /// Reads the bytes of the entry that a tag names, from the archive with
    /// the tag's id, which is opened when it is not open yet. A patch file
    /// that the entry needs is read through `open` when it is first needed.
    ///
    /// `NotFound` when no file stands for the archive or the file cannot be
    /// read; the error of opening the archive; else what reading the entry
    /// comes to.
    pub fn read_tag<F, C>(&mut self, tag: TagHash, open: &F, codec: &C) -> (r: Result<Vec<u8>, PkgError>) where
        F: Fn(&str) -> Option<Vec<u8>>,
        C: Fn(OodleVersion, &Vec<u8>) -> CodecOutcome,

        requires
            old(self).wf(),
            forall|path: &str| (*open).requires((path,)),
            forall|v: OodleVersion, input: &Vec<u8>| (*codec).requires((v, input)),
        ensures
            final(self).wf(),
            final(self).lookup == old(self).lookup,
            final(self).package_paths == old(self).package_paths,
            final(self).package_ids == old(self).package_ids,
            final(self).version == old(self).version,
            final(self).platform == old(self).platform,
            final(self).package_dir == old(self).package_dir,
            spec_tag_read(*old(self), *final(self), tag, open, spec_codec(codec), spec_result_view(r)),
            old(self).pkgs@.contains_key(spec_tag_pkg_id(tag.0)) ==> final(self).pkgs@.contains_key(
                spec_tag_pkg_id(tag.0),
            ) && final(self).pkgs@[spec_tag_pkg_id(tag.0)].spec_entries() == old(self).pkgs@[spec_tag_pkg_id(
                tag.0,
            )].spec_entries(),
            r matches Ok(data) ==> {
                let id = spec_tag_pkg_id(tag.0);
                let index = spec_tag_entry_index(tag.0) as int;
                &&& final(self).pkgs@.contains_key(id)
                &&& index < final(self).pkgs@[id].spec_entries().len()
                &&& data@.len() == final(self).pkgs@[id].spec_entries()[index].file_size
                &&& spec_is_entry(
                    |i: usize, d: Seq<u8>| final(self).pkgs@[id].spec_is_block(i, d),
                    final(self).pkgs@[id].spec_entries()[index],
                    data@,
                )
            },
    {
        let pkg_id: u16 = tag.pkg_id();
        let index: usize = tag.entry_index() as usize;
        let ghost gave = spec_codec(codec);
        match self.get_or_load_pkg(pkg_id, open) {
            Ok(()) => {},
            Err(e) => {
                proof {
                    if old(self).package_paths@.contains_key(pkg_id) {
                        assert(spec_loaded(
                            old(self).version,
                            old(self).package_paths@[pkg_id].path@,
                            old(self).keys@,
                            open,
                            Err::<AnyPackage, PkgError>(e),
                        ));
                    }
                }
                return Err(e);
            },
        }
        let ghost loaded = self.pkgs@;
        let mut package: AnyPackage = match self.pkgs.remove(&pkg_id) {
            Some(p) => p,
            None => {
                return Err(PkgError::NotFound);
            },
        };
        let ghost archive = package;
        let result: Result<Vec<u8>, PkgError> = package.read_entry_with_patches(index, open, codec, 0x1_0000);
        self.pkgs.insert(pkg_id, package);
        proof {
            assert forall|id: u16| self.pkgs@.contains_key(id) implies (#[trigger] self.pkgs@[id]).wf() by {
                if id != pkg_id {
                    assert(loaded.contains_key(id));
                    assert(loaded[id] == self.pkgs@[id]);
                }
            }
            assert(self.pkgs@ =~= loaded.remove(pkg_id).insert(pkg_id, package));
            assert(loaded.remove(pkg_id) == old(self).pkgs@.remove(pkg_id));
            assert(self.pkgs@ =~= old(self).pkgs@.insert(pkg_id, package));
            assert(spec_read_from(
                *old(self),
                *self,
                pkg_id,
                index,
                archive,
                open,
                gave,
                spec_result_view(result),
            ));
            if !old(self).pkgs@.contains_key(pkg_id) {
                assert(spec_loaded(
                    old(self).version,
                    old(self).package_paths@[pkg_id].path@,
                    old(self).keys@,
                    open,
                    Ok::<AnyPackage, PkgError>(archive),
                ));
            }
        }
        result
    }

    /// Reads the bytes of the entry that a 64-bit alias stands for.
    /// `NotFound` when the index does not hold the alias; else what reading
    /// the entry of the alias's tag comes to.
    pub fn read_tag64<F, C>(&mut self, hash: TagHash64, open: &F, codec: &C) -> (r: Result<Vec<u8>, PkgError>) where
        F: Fn(&str) -> Option<Vec<u8>>,
        C: Fn(OodleVersion, &Vec<u8>) -> CodecOutcome,

        requires
            old(self).wf(),
            forall|path: &str| (*open).requires((path,)),
            forall|v: OodleVersion, input: &Vec<u8>| (*codec).requires((v, input)),
        ensures
            final(self).wf(),
            final(self).lookup == old(self).lookup,
            final(self).package_paths == old(self).package_paths,
            final(self).package_ids == old(self).package_ids,
            final(self).version == old(self).version,
            final(self).platform == old(self).platform,
            final(self).package_dir == old(self).package_dir,
            !old(self).lookup.tag64_entries@.contains_key(hash.0) ==> r == Err::<Vec<u8>, PkgError>(
                PkgError::NotFound,
            ) && final(self).pkgs@ == old(self).pkgs@,
            old(self).lookup.tag64_entries@.contains_key(hash.0) ==> spec_tag_read(
                *old(self),
                *final(self),
                old(self).lookup.tag64_entries@[hash.0].hash32,
                open,
                spec_codec(codec),
                spec_result_view(r),
            ),
            r matches Ok(data) ==> {
                let tag = old(self).lookup.tag64_entries@[hash.0].hash32;
                let id = spec_tag_pkg_id(tag.0);
                let index = spec_tag_entry_index(tag.0) as int;
                &&& old(self).lookup.tag64_entries@.contains_key(hash.0)
                &&& final(self).pkgs@.contains_key(id)
                &&& index < final(self).pkgs@[id].spec_entries().len()
                &&& data@.len() == final(self).pkgs@[id].spec_entries()[index].file_size
                &&& spec_is_entry(
                    |i: usize, d: Seq<u8>| final(self).pkgs@[id].spec_is_block(i, d),
                    final(self).pkgs@[id].spec_entries()[index],
                    data@,
                )
            },
    {
        let tag: TagHash = match self.lookup.tag64_entries.get(&hash.0) {
            Some(entry) => entry.hash32,
            None => {
                return Err(PkgError::NotFound);
            },
        };
        self.read_tag(tag, open, codec)
    }
}

/// Whether reading entry `index` of the archive `archive`, which stands for
/// id `id` in the fleet, can have left the fleet `after` and given `r`: the
/// entry is read, with patch files read through `open` as they are needed,
/// and the archive stays open in the fleet as the reading left it.
pub open spec fn spec_read_from<F: Fn(&str) -> Option<Vec<u8>>>(
    before: PackageManager,
    after: PackageManager,
    id: u16,
    index: usize,
    archive: AnyPackage,
    open: &F,
    gave: spec_fn(OodleVersion, Seq<u8>, Result<Seq<u8>, PkgError>) -> bool,
    r: Result<Seq<u8>, PkgError>,
) -> bool {
    &&& after.pkgs@.contains_key(id)
    &&& after.pkgs@ == before.pkgs@.insert(id, after.pkgs@[id])
    &&& spec_patched_read(open, gave, index, archive, after.pkgs@[id], 0x1_0000, r)
}

/// Whether reading the entry that `tag` names can have turned the fleet
/// `before` into the fleet `after` and given `r`.
///
/// From an archive that is open the entry is read. Else `NotFound` is given
/// when no file stands for the tag's archive id or the file cannot be read,
/// and the error of opening the archive when it cannot be opened; else the
/// entry is read from the archive that was opened.
pub open spec fn spec_tag_read<F: Fn(&str) -> Option<Vec<u8>>>(
    before: PackageManager,
    after: PackageManager,
    tag: TagHash,
    open: &F,
    gave: spec_fn(OodleVersion, Seq<u8>, Result<Seq<u8>, PkgError>) -> bool,
    r: Result<Seq<u8>, PkgError>,
) -> bool {
    let id = spec_tag_pkg_id(tag.0);
    let index = spec_tag_entry_index(tag.0) as usize;
    if before.pkgs@.contains_key(id) {
        spec_read_from(before, after, id, index, before.pkgs@[id], open, gave, r)
    } else if !before.package_paths@.contains_key(id) {
        r == Err::<Seq<u8>, PkgError>(PkgError::NotFound) && after.pkgs@ == before.pkgs@
    } else {
        exists|loaded: Result<AnyPackage, PkgError>| #[trigger]
            spec_loaded(before.version, before.package_paths@[id].path@, before.keys@, open, loaded) && match loaded {
                Err(e) => r == Err::<Seq<u8>, PkgError>(e) && after.pkgs@ == before.pkgs@,
                Ok(p) => spec_read_from(before, after, id, index, p, open, gave, r),
            }
    }
}

/// Whether `platform` is the platform of the archive that opening the image
/// `s` gives; nothing when the image cannot be opened.
pub open spec fn spec_platform_of(
    version: GameVersion,
    path: Seq<char>,
    s: Seq<u8>,
    keys: Map<u64, crate::crypto::GroupKey>,
    platform: Option<PackagePlatform>,
) -> bool {
    match platform {
        Some(p) => exists|pkg: AnyPackage| #[trigger]
            version.spec_opened(path, s, keys, Ok(pkg)) && pkg.spec_platform() == p,
        None => !version.spec_can_open(s),
    }
}

/// Whether `r` is the platform that is told from the first archive of a
/// fleet, of which `image` was read or nothing could be read: the platform
/// of the archive when its image can be opened, else the one that its file
/// name carries.
pub open spec fn spec_detected_from(
    version: GameVersion,
    first: PackagePath,
    keys: Map<u64, crate::crypto::GroupKey>,
    image: Option<Seq<u8>>,
    r: Result<PackagePlatform, PkgError>,
) -> bool {
    let named: Result<PackagePlatform, PkgError> = match PackagePlatform::spec_parse(first.platform@) {
        Some(p) => Ok(p),
        None => Err(PkgError::Unimplemented),
    };
    match image {
        Some(s) => if version.spec_can_open(s) {
            r is Ok && spec_platform_of(version, first.path@, s, keys, Some(r->Ok_0))
        } else {
            r == named
        },
        None => r == named,
    }
}

/// Whether `r` is the platform that is told from the first archive of a
/// fleet, whose file is read through `open`.
pub open spec fn spec_detected<F: Fn(&str) -> Option<Vec<u8>>>(
    version: GameVersion,
    first: PackagePath,
    keys: Map<u64, crate::crypto::GroupKey>,
    open: &F,
    r: Result<PackagePlatform, PkgError>,
) -> bool {
    exists|file: &str, read: Option<Vec<u8>>| #[trigger]
        (*open).ensures((file,), read) && file@ == first.path@ && spec_detected_from(
            version,
            first,
            keys,
            match read {
                Some(image) => Some(image@),
                None => None,
            },
            r,
        )
}

/// Whether the platform of a fleet over the candidates `packages` cannot be
/// told: the latest file of the first candidate's archive could not be read
/// through `open` or opened, and its name carries none of the platforms that
/// have a short name.
pub open spec fn spec_platform_untold<F: Fn(&str) -> Option<Vec<u8>>>(
    version: GameVersion,
    packages: Seq<(u16, String)>,
    keys: Map<u64, crate::crypto::GroupKey>,
    open: &F,
) -> bool {
    exists|first: PackagePath| #[trigger]
        spec_detected(version, first, keys, open, Err::<PackagePlatform, PkgError>(PkgError::Unimplemented))
            && PackagePlatform::spec_parse(first.platform@) is None && (exists|latest: Map<u16, String>| #[trigger]
            spec_is_latest(packages, packages.len() as int, latest) && first.path@ == latest[packages[0].0]@)
}

/// A fleet whose first archive opens is built. Where reading the latest
/// file of the first candidate's archive through `open` can only give an
/// image that opens as an archive of the generation, the platform of the
/// fleet can be told, so that its construction does not fail.
pub proof fn fleet_is_built_when_its_first_archive_opens<F: Fn(&str) -> Option<Vec<u8>>>(
    version: GameVersion,
    packages: Seq<(u16, String)>,
    keys: Map<u64, crate::crypto::GroupKey>,
    open: &F,
)
    requires
        packages.len() > 0,
        forall|file: &str, read: Option<Vec<u8>>, latest: Map<u16, String>|
            #![trigger (*open).ensures((file,), read), spec_is_latest(packages, packages.len() as int, latest)]
            (*open).ensures((file,), read) && spec_is_latest(packages, packages.len() as int, latest) && file@
                == latest[packages[0].0]@ ==> (read matches Some(image) && version.spec_can_open(image@)),
    ensures
        !spec_platform_untold(version, packages, keys, open),
{
    if spec_platform_untold(version, packages, keys, open) {
        let first = choose|first: PackagePath| #[trigger]
            spec_detected(version, first, keys, open, Err::<PackagePlatform, PkgError>(PkgError::Unimplemented))
                && PackagePlatform::spec_parse(first.platform@) is None && (exists|latest: Map<u16, String>| #[trigger]
                spec_is_latest(packages, packages.len() as int, latest) && first.path@ == latest[packages[0].0]@);
        let latest = choose|latest: Map<u16, String>| #[trigger]
            spec_is_latest(packages, packages.len() as int, latest) && first.path@ == latest[packages[0].0]@;
        let (file, read) = choose|file: &str, read: Option<Vec<u8>>| #[trigger]
            (*open).ensures((file,), read) && file@ == first.path@ && spec_detected_from(
                version,
                first,
                keys,
                match read {
                    Some(image) => Some(image@),
                    None => None,
                },
                Err::<PackagePlatform, PkgError>(PkgError::Unimplemented),
            );
        assert((*open).ensures((file,), read) && spec_is_latest(packages, packages.len() as int, latest));
    }
}

/// Whether `r` is what reading the file at `path` through `open` and
/// opening it as an archive of the given generation comes to: `NotFound`
/// when the file cannot be read, else what opening its image gives.
pub open spec fn spec_loaded<F: Fn(&str) -> Option<Vec<u8>>>(
    version: GameVersion,
    path: Seq<char>,
    keys: Map<u64, crate::crypto::GroupKey>,
    open: &F,
    r: Result<AnyPackage, PkgError>,
) -> bool {
    exists|file: &str, read: Option<Vec<u8>>| #[trigger]
        (*open).ensures((file,), read) && file@ == path && match read {
            None => r matches Err(PkgError::NotFound),
            Some(image) => version.spec_opened(path, image@, keys, r),
        }
}

/// Whether `paths` holds, for exactly the ids of `latest`, the parts of the
/// path that `latest` keeps.
pub open spec fn spec_paths_of(paths: Map<u16, PackagePath>, latest: Map<u16, String>) -> bool {
    &&& forall|id: u16| paths.contains_key(id) <==> latest.contains_key(id)
    &&& forall|id: u16| paths.contains_key(id) ==> (#[trigger] paths[id]).path@ == latest[id]@
}

/// A named tag found among the first `n` is the one found among more.
pub proof fn lemma_found_named_tag(tags: Seq<PackageNamedTagEntry>, n: int, m: int, name: Seq<char>, class_hash: u32)
    requires
        0 <= n <= m,
        spec_find_named_tag(tags, n, name, class_hash) is Some,
    ensures
        spec_find_named_tag(tags, m, name, class_hash) == spec_find_named_tag(tags, n, name, class_hash),
    decreases m - n,
{
    if n < m {
        lemma_found_named_tag(tags, n, m - 1, name, class_hash);
    }
}

/// A name found among the first `n` named tags is the one found among more.
pub proof fn lemma_found_tag_name(tags: Seq<PackageNamedTagEntry>, n: int, m: int, tag: TagHash)
    requires
        0 <= n <= m,
        spec_find_tag_name(tags, n, tag) is Some,
    ensures
        spec_find_tag_name(tags, m, tag) == spec_find_tag_name(tags, n, tag),
    decreases m - n,
{
    if n < m {
        lemma_found_tag_name(tags, n, m - 1, tag);
    }
}

} // verus!
