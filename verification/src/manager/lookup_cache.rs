//! The index over the entries, aliases and named tags of all archives of a
//! fleet.

use std::collections::HashMap;
use vstd::prelude::*;
use crate::d2_shared::PackageNamedTagEntry;
use crate::package::{spec_has_type, Package, UEntryHeader, UHashTableEntry};
use crate::tag::{spec_tag_is_valid, spec_tag_new, TagHash, TagHash64};

verus! {

broadcast use vstd::std_specs::hash::group_hash_axioms;

/// What a 64-bit alias stands for.
#[derive(Clone, Copy, Debug, PartialEq, Eq, Structural)]
pub struct HashTableEntryShort {
    pub hash32: TagHash,
    pub reference: TagHash,
}

/// The tables of one archive that enter the index.
pub struct PackageTables {
    pub pkg_id: u16,
    pub entries: Vec<UEntryHeader>,
    pub hashes: Vec<UHashTableEntry>,
    pub named_tags: Vec<PackageNamedTagEntry>,
}

impl PackageTables {
    /// The tables of an open archive.
    pub fn of<P: Package>(pkg: &P) -> (t: PackageTables)
        ensures
            t.pkg_id == pkg.spec_pkg_id(),
            t.entries@ == pkg.spec_entries(),
            t.hashes@ == pkg.spec_hash64_table(),
            t.named_tags@ == pkg.spec_named_tags(),
    {
        let entries: &[UEntryHeader] = pkg.entries();
        PackageTables {
            pkg_id: pkg.pkg_id(),
            entries: vstd::slice::slice_to_vec(entries),
            hashes: pkg.hash64_table(),
            named_tags: pkg.named_tags(),
        }
    }
}

/// A choice of entries: by reference, or by type and, when one is given,
/// subtype.
#[derive(Clone, Copy, Debug)]
pub enum EntryFilter {
    Reference(u32),
    Type(u8, Option<u8>),
}

impl EntryFilter {
    /// Whether the filter lets an entry through.
    pub open spec fn spec_accepts(self, e: UEntryHeader) -> bool {
        match self {
            EntryFilter::Reference(r) => e.reference == r,
            EntryFilter::Type(t, s) => spec_has_type(e, t, s),
        }
    }

    /// Whether the filter lets an entry through.
    pub fn accepts(&self, e: &UEntryHeader) -> (b: bool)
        ensures
            b == self.spec_accepts(*e),
    {
        match self {
            EntryFilter::Reference(r) => e.reference == *r,
            EntryFilter::Type(t, s) => e.file_type == *t && match s {
                Some(sub) => *sub == e.file_subtype,
                None => true,
            },
        }
    }
}

/// The tag of an entry of a fleet, from its archive id and its index in the
/// archive's table; the index counts modulo 8192.
pub open spec fn spec_entry_tag(pkg_id: u16, index: int) -> TagHash {
    TagHash(spec_tag_new(pkg_id, (index % 0x1_0000) as u16))
}

/// The entries among the first `n` of an archive that a filter lets through,
/// each with its tag, in the order of the table.
pub open spec fn spec_tagged_matching(pkg_id: u16, entries: Seq<UEntryHeader>, n: int, filter: EntryFilter) -> Seq<
    (TagHash, UEntryHeader),
>
    decreases n,
{
    if n <= 0 {
        Seq::empty()
    } else {
        let rest = spec_tagged_matching(pkg_id, entries, n - 1, filter);
        if filter.spec_accepts(entries[n - 1]) {
            rest.push((spec_entry_tag(pkg_id, n - 1), entries[n - 1]))
        } else {
            rest
        }
    }
}

/// The entries of the first `n` archives of `ids` that a filter lets
/// through, archive after archive.
pub open spec fn spec_fleet_matching(
    ids: Seq<u16>,
    index: Map<u16, Vec<UEntryHeader>>,
    n: int,
    filter: EntryFilter,
) -> Seq<(TagHash, UEntryHeader)>
    decreases n,
{
    if n <= 0 {
        Seq::empty()
    } else {
        spec_fleet_matching(ids, index, n - 1, filter) + spec_tagged_matching(
            ids[n - 1],
            index[ids[n - 1]]@,
            index[ids[n - 1]]@.len() as int,
            filter,
        )
    }
}

/// The entry tables by archive id after the first `n` archives have entered
/// the index; a later archive takes the place of an earlier one with its id.
pub open spec fn spec_entries_index(tables: Seq<PackageTables>, n: int) -> Map<u16, Seq<UEntryHeader>>
    decreases n,
{
    if n <= 0 {
        Map::empty()
    } else {
        spec_entries_index(tables, n - 1).insert(tables[n - 1].pkg_id, tables[n - 1].entries@)
    }
}

/// The aliases after the first `k` rows of `hashes` have joined `index`. A
/// row whose tag is not valid is left out; a later row takes the place of an
/// earlier one with its alias.
pub open spec fn spec_add_hashes(index: Map<u64, HashTableEntryShort>, hashes: Seq<UHashTableEntry>, k: int) -> Map<
    u64,
    HashTableEntryShort,
>
    decreases k,
{
    if k <= 0 {
        index
    } else {
        let before = spec_add_hashes(index, hashes, k - 1);
        let row = hashes[k - 1];
        if spec_tag_is_valid(row.hash32.0) {
            before.insert(row.hash64, HashTableEntryShort { hash32: row.hash32, reference: row.reference })
        } else {
            before
        }
    }
}

/// The aliases of the first `n` archives.
pub open spec fn spec_alias_index(tables: Seq<PackageTables>, n: int) -> Map<u64, HashTableEntryShort>
    decreases n,
{
    if n <= 0 {
        Map::empty()
    } else {
        spec_add_hashes(
            spec_alias_index(tables, n - 1),
            tables[n - 1].hashes@,
            tables[n - 1].hashes@.len() as int,
        )
    }
}

/// The aliases by tag after the first `k` rows of `hashes` have joined
/// `index`, with the same rows left out as in the aliases.
pub open spec fn spec_add_reverse(index: Map<u32, TagHash64>, hashes: Seq<UHashTableEntry>, k: int) -> Map<
    u32,
    TagHash64,
>
    decreases k,
{
    if k <= 0 {
        index
    } else {
        let before = spec_add_reverse(index, hashes, k - 1);
        let row = hashes[k - 1];
        if spec_tag_is_valid(row.hash32.0) {
            before.insert(row.hash32.0, TagHash64(row.hash64))
        } else {
            before
        }
    }
}

/// The aliases by tag of the first `n` archives.
pub open spec fn spec_reverse_index(tables: Seq<PackageTables>, n: int) -> Map<u32, TagHash64>
    decreases n,
{
    if n <= 0 {
        Map::empty()
    } else {
        spec_add_reverse(
            spec_reverse_index(tables, n - 1),
            tables[n - 1].hashes@,
            tables[n - 1].hashes@.len() as int,
        )
    }
}

/// The named tags of the first `n` archives, archive after archive.
pub open spec fn spec_all_named_tags(tables: Seq<PackageTables>, n: int) -> Seq<PackageNamedTagEntry>
    decreases n,
{
    if n <= 0 {
        Seq::empty()
    } else {
        spec_all_named_tags(tables, n - 1) + tables[n - 1].named_tags@
    }
}

/// The entry tables by archive id that the first `n` of `parts` give; a
/// later part takes the place of an earlier one with its id.
pub open spec fn spec_entries_from(parts: Seq<(u16, Vec<UEntryHeader>)>, n: int) -> Map<u16, Seq<UEntryHeader>>
    decreases n,
{
    if n <= 0 {
        Map::empty()
    } else {
        spec_entries_from(parts, n - 1).insert(parts[n - 1].0, parts[n - 1].1@)
    }
}

/// The aliases that the first `n` of `rows` give; a later row takes the
/// place of an earlier one with its alias.
pub open spec fn spec_aliases_from(rows: Seq<(u64, HashTableEntryShort)>, n: int) -> Map<u64, HashTableEntryShort>
    decreases n,
{
    if n <= 0 {
        Map::empty()
    } else {
        spec_aliases_from(rows, n - 1).insert(rows[n - 1].0, rows[n - 1].1)
    }
}

/// The aliases by tag that the first `n` of `rows` give; a later row takes
/// the place of an earlier one with its tag.
pub open spec fn spec_reverse_from(rows: Seq<(u32, TagHash64)>, n: int) -> Map<u32, TagHash64>
    decreases n,
{
    if n <= 0 {
        Map::empty()
    } else {
        spec_reverse_from(rows, n - 1).insert(rows[n - 1].0, rows[n - 1].1)
    }
}

/// The index over all archives of a fleet.
pub struct TagLookupIndex {
    /// The entry table of each archive by its id.
    pub tag32_entries_by_pkg: HashMap<u16, Vec<UEntryHeader>>,
    /// The ids of the archives in the index, each once.
    pub package_ids: Vec<u16>,
    /// What each 64-bit alias stands for.
    pub tag64_entries: HashMap<u64, HashTableEntryShort>,
    /// The alias of a tag, by the tag's value.
    pub tag32_to_tag64: HashMap<u32, TagHash64>,
    pub named_tags: Vec<PackageNamedTagEntry>,
}

impl TagLookupIndex {
    /// The entry tables by archive id.
    pub open spec fn spec_entries(&self) -> Map<u16, Seq<UEntryHeader>> {
        Map::new(
            |k: u16| self.tag32_entries_by_pkg@.contains_key(k),
            |k: u16| self.tag32_entries_by_pkg@[k]@,
        )
    }

    /// The list of ids holds each archive of the index once.
    pub open spec fn wf(&self) -> bool {
        &&& forall|i: int, j: int|
            0 <= i < j < self.package_ids@.len() ==> self.package_ids@[i] != self.package_ids@[j]
        &&& forall|k: u16| self.tag32_entries_by_pkg@.contains_key(k) <==> self.package_ids@.contains(k)
    }

    /// An index of no archives.
    pub fn new() -> (index: TagLookupIndex)
        ensures
            index.wf(),
            index.package_ids@.len() == 0,
            index.tag32_entries_by_pkg@ == Map::<u16, Vec<UEntryHeader>>::empty(),
            index.tag64_entries@ == Map::<u64, HashTableEntryShort>::empty(),
            index.tag32_to_tag64@ == Map::<u32, TagHash64>::empty(),
            index.named_tags@.len() == 0,
    {
        TagLookupIndex {
            tag32_entries_by_pkg: HashMap::new(),
            package_ids: Vec::new(),
            tag64_entries: HashMap::new(),
            tag32_to_tag64: HashMap::new(),
            named_tags: Vec::new(),
        }
    }

    /// Takes the entry table of an archive into the index, in place of the
    /// table that the index had for the archive's id.
    pub fn insert_entries(&mut self, pkg_id: u16, entries: Vec<UEntryHeader>)
        requires
            old(self).wf(),
        ensures
            final(self).wf(),
            final(self).spec_entries() == old(self).spec_entries().insert(pkg_id, entries@),
            final(self).package_ids@ == if old(self).tag32_entries_by_pkg@.contains_key(pkg_id) {
                old(self).package_ids@
            } else {
                old(self).package_ids@.push(pkg_id)
            },
            final(self).tag64_entries == old(self).tag64_entries,
            final(self).tag32_to_tag64 == old(self).tag32_to_tag64,
            final(self).named_tags == old(self).named_tags,
    {
        let ghost before = *self;
        if !self.tag32_entries_by_pkg.contains_key(&pkg_id) {
            self.package_ids.push(pkg_id);
        }
        self.tag32_entries_by_pkg.insert(pkg_id, entries);
        proof {
            assert(self.spec_entries() =~= before.spec_entries().insert(pkg_id, entries@));
            assert forall|k: u16| self.tag32_entries_by_pkg@.contains_key(k) <==> self.package_ids@.contains(
                k,
            ) by {
                if before.package_ids@.contains(k) {
                    let i = choose|i: int| 0 <= i < before.package_ids@.len() && before.package_ids@[i] == k;
                    assert(self.package_ids@[i] == k);
                }
                if self.package_ids@.contains(k) && k != pkg_id {
                    let i = choose|i: int| 0 <= i < self.package_ids@.len() && self.package_ids@[i] == k;
                    assert(before.package_ids@[i] == k);
                }
                if k == pkg_id {
                    if before.tag32_entries_by_pkg@.contains_key(k) {
                        assert(before.package_ids@.contains(k));
                    } else {
                        assert(self.package_ids@[before.package_ids@.len() as int] == k);
                    }
                }
            }
            assert forall|i: int, j: int| 0 <= i < j < self.package_ids@.len() implies self.package_ids@[i]
                != self.package_ids@[j] by {
                if j == before.package_ids@.len() {
                    assert(before.package_ids@[i] == self.package_ids@[i]);
                    if self.package_ids@[i] == pkg_id {
                        assert(before.package_ids@.contains(pkg_id));
                    }
                }
            }
        }
    }

    /// The index with the given contents: the entry tables by archive id,
    /// the aliases, the aliases by tag and the named tags. Of two tables for
    /// one id, and of two rows for one alias or tag, the later stands.
    pub fn from_parts(
        entries: Vec<(u16, Vec<UEntryHeader>)>,
        aliases: &Vec<(u64, HashTableEntryShort)>,
        reverse: &Vec<(u32, TagHash64)>,
        named_tags: Vec<PackageNamedTagEntry>,
    ) -> (index: TagLookupIndex)
        ensures
            index.wf(),
            index.spec_entries() == spec_entries_from(entries@, entries@.len() as int),
            index.tag64_entries@ == spec_aliases_from(aliases@, aliases@.len() as int),
            index.tag32_to_tag64@ == spec_reverse_from(reverse@, reverse@.len() as int),
            index.named_tags@ == named_tags@,
    {
        let mut index = TagLookupIndex::new();
        let ghost all = entries@;
        let mut entries = entries;
        let total: usize = entries.len();
        assert(index.spec_entries() =~= spec_entries_from(all, 0));
        // The tables are taken from the end of the list and enter the index
        // in the order of the list.
        let mut rest: Vec<(u16, Vec<UEntryHeader>)> = Vec::new();
        while entries.len() > 0
            invariant
                rest@.len() + entries@.len() == total,
                total == all.len(),
                forall|i: int| 0 <= i < entries@.len() ==> entries@[i] == all[i],
                forall|i: int| 0 <= i < rest@.len() ==> rest@[i] == all[total - 1 - i],
            decreases entries@.len(),
        {
            let t = entries.pop().unwrap();
            rest.push(t);
        }
        let mut n: usize = 0;
        while n < total
            invariant
                n <= total == all.len(),
                rest@.len() == total - n,
                forall|i: int| 0 <= i < rest@.len() ==> rest@[i] == all[total - 1 - i],
                index.wf(),
                index.spec_entries() == spec_entries_from(all, n as int),
                index.tag64_entries@ == Map::<u64, HashTableEntryShort>::empty(),
                index.tag32_to_tag64@ == Map::<u32, TagHash64>::empty(),
                index.named_tags@.len() == 0,
            decreases total - n,
        {
            let t: (u16, Vec<UEntryHeader>) = rest.pop().unwrap();
            assert(t == all[n as int]);
            index.insert_entries(t.0, t.1);
            n = n + 1;
        }
        let mut k: usize = 0;
        while k < aliases.len()
            invariant
                k <= aliases@.len(),
                index.wf(),
                index.spec_entries() == spec_entries_from(all, all.len() as int),
                index.tag64_entries@ == spec_aliases_from(aliases@, k as int),
                index.tag32_to_tag64@ == Map::<u32, TagHash64>::empty(),
                index.named_tags@.len() == 0,
            decreases aliases.len() - k,
        {
            index.tag64_entries.insert(aliases[k].0, aliases[k].1);
            k = k + 1;
        }
        let mut k: usize = 0;
        while k < reverse.len()
            invariant
                k <= reverse@.len(),
                index.wf(),
                index.spec_entries() == spec_entries_from(all, all.len() as int),
                index.tag64_entries@ == spec_aliases_from(aliases@, aliases@.len() as int),
                index.tag32_to_tag64@ == spec_reverse_from(reverse@, k as int),
                index.named_tags@.len() == 0,
            decreases reverse.len() - k,
        {
            index.tag32_to_tag64.insert(reverse[k].0, reverse[k].1);
            k = k + 1;
        }
        index.named_tags = named_tags;
        index
    }

    /// The index over the given archives, which enter it in their order.
    pub fn build(tables: Vec<PackageTables>) -> (index: TagLookupIndex)
        ensures
            index.wf(),
            index.spec_entries() == spec_entries_index(tables@, tables@.len() as int),
            index.tag64_entries@ == spec_alias_index(tables@, tables@.len() as int),
            index.tag32_to_tag64@ == spec_reverse_index(tables@, tables@.len() as int),
            index.named_tags@ == spec_all_named_tags(tables@, tables@.len() as int),
    {
        let mut index = TagLookupIndex::new();
        let ghost all = tables@;
        let mut tables = tables;
        let total: usize = tables.len();
        let mut n: usize = 0;
        assert(index.spec_entries() =~= spec_entries_index(all, 0));
        // The archives are taken from the end of the list; `n` counts those
        // that have entered, and they enter in the order of the list.
        let mut rest: Vec<PackageTables> = Vec::new();
        while tables.len() > 0
            invariant
                rest@.len() + tables@.len() == total,
                total == all.len(),
                forall|i: int| 0 <= i < tables@.len() ==> tables@[i] == all[i],
                forall|i: int| 0 <= i < rest@.len() ==> rest@[i] == all[total - 1 - i],
            decreases tables@.len(),
        {
            let t = tables.pop().unwrap();
            rest.push(t);
        }
        while n < total
            invariant
                n <= total == all.len(),
                rest@.len() == total - n,
                forall|i: int| 0 <= i < rest@.len() ==> rest@[i] == all[total - 1 - i],
                index.wf(),
                index.spec_entries() == spec_entries_index(all, n as int),
                index.tag64_entries@ == spec_alias_index(all, n as int),
                index.tag32_to_tag64@ == spec_reverse_index(all, n as int),
                index.named_tags@ == spec_all_named_tags(all, n as int),
            decreases total - n,
        {
            let t: PackageTables = rest.pop().unwrap();
            assert(t == all[n as int]);
            let PackageTables { pkg_id, entries, hashes, named_tags } = t;
            index.insert_entries(pkg_id, entries);
            proof {
                assert(index.spec_entries() =~= spec_entries_index(all, n + 1));
            }
            let mut k: usize = 0;
            while k < hashes.len()
                invariant
                    k <= hashes@.len(),
                    index.wf(),
                    index.spec_entries() == spec_entries_index(all, n + 1),
                    index.named_tags@ == spec_all_named_tags(all, n as int),
                    index.tag64_entries@ == spec_add_hashes(spec_alias_index(all, n as int), hashes@, k as int),
                    index.tag32_to_tag64@ == spec_add_reverse(spec_reverse_index(all, n as int), hashes@, k as int),
                decreases hashes.len() - k,
            {
                let row: UHashTableEntry = hashes[k];
                if row.hash32.is_valid() {
                    index.tag64_entries.insert(
                        row.hash64,
                        HashTableEntryShort { hash32: row.hash32, reference: row.reference },
                    );
                    index.tag32_to_tag64.insert(row.hash32.0, TagHash64(row.hash64));
                }
                k = k + 1;
            }
            let mut named_tags = named_tags;
            let ghost added = named_tags@;
            index.named_tags.append(&mut named_tags);
            proof {
                assert(all[n as int].hashes@ == hashes@);
                assert(all[n as int].named_tags@ == added);
            }
            n = n + 1;
        }
        index
    }

    /// The entries of one archive that a filter lets through, each with its
    /// tag, appended to `out`.
    fn collect_matching(pkg_id: u16, entries: &Vec<UEntryHeader>, filter: EntryFilter, out: &mut Vec<
        (TagHash, UEntryHeader),
    >)
        ensures
            final(out)@ == old(out)@ + spec_tagged_matching(pkg_id, entries@, entries@.len() as int, filter),
    {
        let mut i: usize = 0;
        assert(out@ =~= old(out)@ + spec_tagged_matching(pkg_id, entries@, 0, filter));
        while i < entries.len()
            invariant
                i <= entries@.len(),
                out@ == old(out)@ + spec_tagged_matching(pkg_id, entries@, i as int, filter),
            decreases entries.len() - i,
        {
            if filter.accepts(&entries[i]) {
                let tag = TagHash::new(pkg_id, (i % 0x1_0000) as u16);
                out.push((tag, entries[i]));
                assert(out@ =~= old(out)@ + spec_tagged_matching(pkg_id, entries@, i + 1, filter));
            }
            i = i + 1;
        }
    }

    /// The entries of all archives that a filter lets through, each with its
    /// tag: archive after archive in the order of `package_ids`, and within
    /// an archive in the order of its table.
    pub fn get_all_matching(&self, filter: EntryFilter) -> (r: Vec<(TagHash, UEntryHeader)>)
        requires
            self.wf(),
        ensures
            r@ == spec_fleet_matching(
                self.package_ids@,
                self.tag32_entries_by_pkg@,
                self.package_ids@.len() as int,
                filter,
            ),
    {
        let mut out: Vec<(TagHash, UEntryHeader)> = Vec::new();
        let mut n: usize = 0;
        while n < self.package_ids.len()
            invariant
                self.wf(),
                n <= self.package_ids@.len(),
                out@ == spec_fleet_matching(self.package_ids@, self.tag32_entries_by_pkg@, n as int, filter),
            decreases self.package_ids.len() - n,
        {
            let pkg_id: u16 = self.package_ids[n];
            assert(self.package_ids@.contains(pkg_id));
            match self.tag32_entries_by_pkg.get(&pkg_id) {
                Some(entries) => {
                    Self::collect_matching(pkg_id, entries, filter, &mut out);
                },
                None => {},
            }
            n = n + 1;
        }
        out
    }
}

} // verus!
