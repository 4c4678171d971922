//! Which files of a directory are archives, which archive id each stands
//! for, and which of several files for one id is kept.

use std::collections::HashMap;
use vstd::prelude::*;
use vstd::string::StringSliceAdditionalSpecFns;
use vstd::utf8::encode_utf8;
use crate::crypto::KeyTable;
use crate::manager::package_path::{pkg_id_of_path, spec_pkg_id_of_path};
use crate::package::{Package, PackageLanguage};
use crate::version::{GameVersion, Version};

verus! {

broadcast use vstd::std_specs::hash::group_hash_axioms;

/// Whether a path ends in `.pkg`, in upper or lower case.
pub open spec fn spec_is_package_file(path: Seq<u8>) -> bool {
    let n = path.len() as int;
    &&& n >= 4
    &&& path[n - 4] == 0x2e
    &&& (path[n - 3] == 0x70 || path[n - 3] == 0x50)
    &&& (path[n - 2] == 0x6b || path[n - 2] == 0x4b)
    &&& (path[n - 1] == 0x67 || path[n - 1] == 0x47)
}

/// Whether a path ends in `.pkg`, in upper or lower case.
pub fn is_package_file(path: &str) -> (b: bool)
    ensures
        b == spec_is_package_file(path.spec_bytes()),
{
    let bytes: &[u8] = path.as_bytes();
    let n: usize = bytes.len();
    n >= 4 && bytes[n - 4] == 0x2e && (bytes[n - 3] == 0x70 || bytes[n - 3] == 0x50) && (bytes[n - 2] == 0x6b
        || bytes[n - 2] == 0x4b) && (bytes[n - 1] == 0x67 || bytes[n - 1] == 0x47)
}

/// Whether `a` comes before `b` in the order of their bytes, looking from
/// index `i` on at two texts that agree before it.
pub open spec fn spec_lex_less_from(a: Seq<u8>, b: Seq<u8>, i: int) -> bool
    decreases b.len() - i,
{
    if i >= b.len() {
        false
    } else if i >= a.len() {
        true
    } else if a[i] != b[i] {
        a[i] < b[i]
    } else {
        spec_lex_less_from(a, b, i + 1)
    }
}

/// Whether `a` comes before `b` in the order of their bytes: at the first
/// place where they differ `a` holds the smaller byte, or `a` ends there.
pub open spec fn spec_lex_less(a: Seq<u8>, b: Seq<u8>) -> bool {
    spec_lex_less_from(a, b, 0)
}

/// Of two texts that agree before `i`, one comes before the other or they
/// are the same.
pub proof fn lemma_lex_total(a: Seq<u8>, b: Seq<u8>, i: int)
    requires
        0 <= i <= a.len(),
        i <= b.len(),
        forall|k: int| 0 <= k < i ==> a[k] == b[k],
    ensures
        spec_lex_less_from(a, b, i) || spec_lex_less_from(b, a, i) || a == b,
        !(spec_lex_less_from(a, b, i) && spec_lex_less_from(b, a, i)),
        a == b ==> !spec_lex_less_from(a, b, i),
    decreases a.len() + b.len() - 2 * i,
{
    if i >= a.len() || i >= b.len() {
        if a.len() == b.len() {
            assert(a =~= b);
        }
    } else if a[i] == b[i] {
        lemma_lex_total(a, b, i + 1);
    }
}

/// The order is transitive.
pub proof fn lemma_lex_transitive(a: Seq<u8>, b: Seq<u8>, c: Seq<u8>, i: int)
    requires
        0 <= i,
        spec_lex_less_from(a, b, i),
        spec_lex_less_from(b, c, i),
    ensures
        spec_lex_less_from(a, c, i),
    decreases c.len() - i,
{
    if i < c.len() && i < a.len() && i < b.len() {
        if a[i] == b[i] && b[i] == c[i] {
            lemma_lex_transitive(a, b, c, i + 1);
        }
    }
}

/// Whether `a` comes before `b` in the order of their bytes.
pub fn lex_less(a: &[u8], b: &[u8]) -> (r: bool)
    ensures
        r == spec_lex_less(a@, b@),
{
    let mut i: usize = 0;
    while i < a.len() && i < b.len()
        invariant
            i <= a@.len(),
            i <= b@.len(),
            spec_lex_less(a@, b@) == spec_lex_less_from(a@, b@, i as int),
        decreases a.len() - i,
    {
        if a[i] != b[i] {
            return a[i] < b[i];
        }
        i = i + 1;
    }
    i < b.len()
}

/// The bytes of a path.
pub open spec fn spec_path_bytes(path: String) -> Seq<u8> {
    encode_utf8(path@)
}

/// Whether `latest` keeps, of the first `n` candidates, for each archive id
/// the path that comes last in the order of bytes.
pub open spec fn spec_is_latest(candidates: Seq<(u16, String)>, n: int, latest: Map<u16, String>) -> bool {
    &&& forall|id: u16|
        latest.contains_key(id) <==> exists|i: int| 0 <= i < n && (#[trigger] candidates[i]).0 == id
    &&& forall|i: int|
        0 <= i < n ==> !spec_lex_less(
            spec_path_bytes(latest[(#[trigger] candidates[i]).0]),
            spec_path_bytes(candidates[i].1),
        )
    &&& forall|id: u16|
        latest.contains_key(id) ==> exists|i: int|
            0 <= i < n && (#[trigger] candidates[i]).0 == id && candidates[i].1@ == latest[id]@
}

/// Keeps for each archive id the path that comes last in the order of
/// bytes.
pub fn select_latest(candidates: &Vec<(u16, String)>) -> (latest: HashMap<u16, String>)
    ensures
        spec_is_latest(candidates@, candidates@.len() as int, latest@),
{
    let mut latest: HashMap<u16, String> = HashMap::new();
    let mut n: usize = 0;
    while n < candidates.len()
        invariant
            n <= candidates@.len(),
            spec_is_latest(candidates@, n as int, latest@),
        decreases candidates.len() - n,
    {
        let id: u16 = candidates[n].0;
        let path: &String = &candidates[n].1;
        let ghost before = latest@;
        let replace: bool = match latest.get(&id) {
            Some(kept) => lex_less(kept.as_str().as_bytes(), path.as_str().as_bytes()),
            None => true,
        };
        if replace {
            latest.insert(id, path.clone());
        }
        proof {
            let after = latest@;
            let new_bytes = spec_path_bytes(candidates@[n as int].1);
            assert forall|k: u16| after.contains_key(k) <==> exists|i: int|
                0 <= i < n + 1 && (#[trigger] candidates@[i]).0 == k by {
                if before.contains_key(k) {
                    let i = choose|i: int| 0 <= i < n && (#[trigger] candidates@[i]).0 == k;
                    assert(candidates@[i].0 == k);
                }
                if k == id {
                    assert(candidates@[n as int].0 == k);
                }
                if exists|i: int| 0 <= i < n + 1 && (#[trigger] candidates@[i]).0 == k {
                    let i = choose|i: int| 0 <= i < n + 1 && (#[trigger] candidates@[i]).0 == k;
                    if i < n {
                        assert(before.contains_key(k));
                    }
                }
            }
            assert forall|i: int| 0 <= i < n + 1 implies !spec_lex_less(
                spec_path_bytes(after[(#[trigger] candidates@[i]).0]),
                spec_path_bytes(candidates@[i].1),
            ) by {
                let c = candidates@[i];
                if i == n {
                    lemma_lex_total(new_bytes, new_bytes, 0);
                } else if c.0 == id && replace {
                    let kept = spec_path_bytes(before[id]);
                    assert(before.contains_key(id));
                    // The kept path came before the new one, and `c` does
                    // not come after the kept one.
                    if spec_lex_less(new_bytes, spec_path_bytes(c.1)) {
                        lemma_lex_transitive(kept, new_bytes, spec_path_bytes(c.1), 0);
                    }
                }
            }
            assert forall|k: u16| after.contains_key(k) implies exists|i: int|
                0 <= i < n + 1 && (#[trigger] candidates@[i]).0 == k && candidates@[i].1@ == after[k]@ by {
                if k == id && replace {
                    assert(candidates@[n as int].0 == k);
                } else {
                    assert(before.contains_key(k));
                    let i = choose|i: int|
                        0 <= i < n && (#[trigger] candidates@[i]).0 == k && candidates@[i].1@ == before[k]@;
                    assert(candidates@[i].0 == k);
                }
            }
        }
        n = n + 1;
    }
    latest
}

/// Two choices of the latest paths among the same candidates agree.
pub proof fn latest_is_unique(candidates: Seq<(u16, String)>, a: Map<u16, String>, b: Map<u16, String>, id: u16)
    requires
        spec_is_latest(candidates, candidates.len() as int, a),
        spec_is_latest(candidates, candidates.len() as int, b),
        a.contains_key(id),
    ensures
        b.contains_key(id),
        spec_path_bytes(a[id]) == spec_path_bytes(b[id]),
{
    let n = candidates.len() as int;
    let i = choose|i: int| 0 <= i < n && (#[trigger] candidates[i]).0 == id && candidates[i].1@ == a[id]@;
    assert(candidates[i].0 == id);
    assert(b.contains_key(id));
    let j = choose|j: int| 0 <= j < n && (#[trigger] candidates[j]).0 == id && candidates[j].1@ == b[id]@;
    let x = spec_path_bytes(a[id]);
    let y = spec_path_bytes(b[id]);
    assert(!spec_lex_less(spec_path_bytes(b[candidates[i].0]), spec_path_bytes(candidates[i].1)));
    assert(!spec_lex_less(spec_path_bytes(a[candidates[j].0]), spec_path_bytes(candidates[j].1)));
    lemma_lex_total(x, y, 0);
}

/// The archive id that a file of the directory stands for, given the id
/// and language found in its header when that could be read. A file that
/// does not end in `.pkg` stands for none, and so does an archive in another
/// language than English. The id is the one that the path carries; when it
/// carries none, it is the one found in the header.
pub open spec fn spec_candidate_id(path: Seq<char>, header: Option<(u16, PackageLanguage)>) -> Option<u16> {
    if !spec_is_package_file(encode_utf8(path)) {
        None
    } else {
        match header {
            Some((id, language)) => if language == PackageLanguage::Neutral || language
                == PackageLanguage::English {
                match spec_pkg_id_of_path(path) {
                    Some(named) => Some(named),
                    None => Some(id),
                }
            } else {
                None
            },
            None => spec_pkg_id_of_path(path),
        }
    }
}

/// Whether the header of a file is read during discovery: that of every
/// file that ends in `.pkg`, for the archive's language and, where the path
/// carries no id, its id.
pub fn needs_header(path: &str) -> (b: bool)
    ensures
        b == spec_is_package_file(path.spec_bytes()),
{
    is_package_file(path)
}

/// The archive id that a file of the directory stands for, given what was
/// found in its header when that could be read.
pub fn candidate_id(path: &str, header: Option<(u16, PackageLanguage)>) -> (r: Option<u16>)
    ensures
        r == spec_candidate_id(path@, header),
{
    if !is_package_file(path) {
        return None;
    }
    match header {
        Some((id, language)) => if language.english_or_none() {
            match pkg_id_of_path(path) {
                Some(named) => Some(named),
                None => Some(id),
            }
        } else {
            None
        },
        None => pkg_id_of_path(path),
    }
}

/// Whether `found` holds the archive id and language of the archive that
/// opening the image `s` gives.
pub open spec fn spec_is_header_id(
    version: GameVersion,
    path: Seq<char>,
    s: Seq<u8>,
    keys: Map<u64, crate::crypto::GroupKey>,
    found: (u16, PackageLanguage),
) -> bool {
    exists|pkg: crate::dispatch::AnyPackage| #[trigger]
        version.spec_opened(path, s, keys, Ok(pkg)) && found == (pkg.spec_pkg_id(), pkg.spec_language())
}

/// The archive id and language in the header of an archive's image; nothing
/// when the image cannot be opened as an archive of the generation.
pub fn header_id(version: GameVersion, path: &str, image: Vec<u8>, keys: &KeyTable) -> (r: Option<
    (u16, PackageLanguage),
>)
    ensures
        r is Some <==> version.spec_can_open(image@),
        r matches Some(found) ==> spec_is_header_id(version, path@, image@, keys@, found),
{
    match version.open(path, image, keys) {
        Ok(pkg) => Some((pkg.pkg_id(), pkg.language())),
        Err(_) => None,
    }
}

/// What reading the header of an archive comes to, of which `image` was read
/// or nothing could be read: the id and language of the archive that opening
/// the image gives; nothing when nothing was read or it cannot be opened.
pub open spec fn spec_header_from(
    version: GameVersion,
    path: Seq<char>,
    keys: Map<u64, crate::crypto::GroupKey>,
    image: Option<Seq<u8>>,
    header: Option<(u16, PackageLanguage)>,
) -> bool {
    match image {
        Some(s) => match header {
            Some(found) => spec_is_header_id(version, path, s, keys, found),
            None => !version.spec_can_open(s),
        },
        None => header is None,
    }
}

/// Whether `header` is what discovery learns from the header of the file at
/// `path`: nothing where the header is not needed, else what reading the
/// file through `open` comes to.
pub open spec fn spec_header_read<F: Fn(&str) -> Option<Vec<u8>>>(
    version: GameVersion,
    path: Seq<char>,
    keys: Map<u64, crate::crypto::GroupKey>,
    open: &F,
    header: Option<(u16, PackageLanguage)>,
) -> bool {
    if spec_is_package_file(encode_utf8(path)) {
        exists|file: &str, read: Option<Vec<u8>>| #[trigger]
            (*open).ensures((file,), read) && file@ == path && spec_header_from(
                version,
                path,
                keys,
                match read {
                    Some(image) => Some(image@),
                    None => None,
                },
                header,
            )
    } else {
        header is None
    }
}

/// The archives among the first `n` of `files`, in the order of the files,
/// each with the id it stands for, given what was learnt from the headers.
pub open spec fn spec_found(files: Seq<String>, headers: Seq<Option<(u16, PackageLanguage)>>, n: int) -> Seq<
    (u16, Seq<char>),
>
    decreases n,
{
    if n <= 0 {
        Seq::empty()
    } else {
        let rest = spec_found(files, headers, n - 1);
        match spec_candidate_id(files[n - 1]@, headers[n - 1]) {
            Some(id) => rest.push((id, files[n - 1]@)),
            None => rest,
        }
    }
}

/// Whether `found` holds the ids and paths of `want`, in its order.
pub open spec fn spec_same_entries(found: Seq<(u16, String)>, want: Seq<(u16, Seq<char>)>) -> bool {
    &&& found.len() == want.len()
    &&& forall|k: int|
        0 <= k < found.len() ==> (#[trigger] found[k]).0 == want[k].0 && found[k].1@ == want[k].1
}

/// Whether `headers` holds, for each of `files`, what discovery learns from
/// its header.
pub open spec fn spec_headers_read<F: Fn(&str) -> Option<Vec<u8>>>(
    files: Seq<String>,
    version: GameVersion,
    keys: Map<u64, crate::crypto::GroupKey>,
    open: &F,
    headers: Seq<Option<(u16, PackageLanguage)>>,
    n: int,
) -> bool {
    &&& headers.len() == n
    &&& forall|i: int| 0 <= i < n ==> spec_header_read(version, files[i]@, keys, open, #[trigger] headers[i])
}

/// Whether `found` is what discovery gives on `files` for some reading of
/// the headers through `open`.
pub open spec fn spec_discovery<F: Fn(&str) -> Option<Vec<u8>>>(
    files: Seq<String>,
    version: GameVersion,
    keys: Map<u64, crate::crypto::GroupKey>,
    open: &F,
    found: Seq<(u16, String)>,
) -> bool {
    exists|headers: Seq<Option<(u16, PackageLanguage)>>| #[trigger]
        spec_headers_read(files, version, keys, open, headers, files.len() as int) && spec_same_entries(
            found,
            spec_found(files, headers, files.len() as int),
        )
}

/// The archives among the first files depend on the headers of those files
/// only.
pub proof fn lemma_found_prefix(
    files: Seq<String>,
    a: Seq<Option<(u16, PackageLanguage)>>,
    b: Seq<Option<(u16, PackageLanguage)>>,
    n: int,
)
    requires
        n <= a.len(),
        n <= b.len(),
        forall|i: int| 0 <= i < n ==> a[i] == b[i],
    ensures
        spec_found(files, a, n) == spec_found(files, b, n),
    decreases n,
{
    if n > 0 {
        lemma_found_prefix(files, a, b, n - 1);
    }
}

/// Names the archive id of every archive among the files of a directory,
/// in the order of the files. Every file that ends in `.pkg` is read through
/// `open` for its header. An archive in another language than English is
/// left out. A file that cannot be read or opened counts by the id that its
/// path carries and is left out when the path carries none.
pub fn discover<F>(files: &Vec<String>, version: GameVersion, keys: &KeyTable, open: &F) -> (found: Vec<
    (u16, String),
>) where F: Fn(&str) -> Option<Vec<u8>>
    requires
        forall|path: &str| (*open).requires((path,)),
    ensures
        spec_discovery(files@, version, keys@, open, found@),
{
    let mut found: Vec<(u16, String)> = Vec::new();
    let mut n: usize = 0;
    let ghost mut headers: Seq<Option<(u16, PackageLanguage)>> = Seq::empty();
    while n < files.len()
        invariant
            n <= files@.len(),
            forall|path: &str| (*open).requires((path,)),
            spec_headers_read(files@, version, keys@, open, headers, n as int),
            spec_same_entries(found@, spec_found(files@, headers, n as int)),
        decreases files.len() - n,
    {
        let path: &str = files[n].as_str();
        let header: Option<(u16, PackageLanguage)> = if needs_header(path) {
            let read: Option<Vec<u8>> = (*open)(path);
            proof {
                assert((*open).ensures((path,), read));
            }
            let ghost image: Option<Seq<u8>> = match &read {
                Some(i) => Some(i@),
                None => None,
            };
            let h = match read {
                Some(image) => header_id(version, path, image, keys),
                None => None,
            };
            proof {
                assert(spec_header_from(version, path@, keys@, image, h));
            }
            h
        } else {
            None
        };
        proof {
            assert(spec_header_read(version, files@[n as int]@, keys@, open, header));
            let ghost earlier = headers;
            headers = headers.push(header);
            lemma_found_prefix(files@, earlier, headers, n as int);
            assert(spec_headers_read(files@, version, keys@, open, headers, n + 1));
        }
        match candidate_id(path, header) {
            Some(id) => {
                found.push((id, files[n].clone()));
            },
            None => {},
        }
        n = n + 1;
    }
    found
}

} // verus!
