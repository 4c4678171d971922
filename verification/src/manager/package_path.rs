//! The parts of an archive's file name.

use vstd::prelude::*;
use vstd::string::{StringExecFns, StringSliceAdditionalSpecFns};
use vstd::utf8::encode_utf8;
use crate::text::{
    index_of, last_index_of, lemma_last_index_of, parse_unsigned, spec_index_of, spec_last_index_of,
    spec_parse_unsigned,
};

verus! {

/// Whether `part` stands in `text` as one piece.
pub open spec fn spec_is_part(text: Seq<char>, part: Seq<char>) -> bool {
    exists|i: int| 0 <= i && i + part.len() <= text.len() && #[trigger] text.subrange(i, i + part.len()) == part
}

/// Calls `Path::new(path).file_name()` of `std::path` and takes the result,
/// when there is one, as an owned string by `to_string_lossy`. What counts
/// as the last component of a path depends on the platform; on every
/// platform it is a piece of the path as it stands.
#[verifier::external_body]
fn file_name_of(path: &str) -> (name: Option<String>)
    ensures
        name matches Some(n) ==> spec_is_part(path@, n@),
{
    std::path::Path::new(path).file_name().map(|n| n.to_string_lossy().into_owned())
}

/// The parts of the file name of an archive, which has the form
/// `<platform>_<name>[_<language>]_<id>_<patch>.pkg`.
#[derive(Debug)]
pub struct PackagePath {
    /// For example `ps3` or `w64`.
    pub platform: String,
    /// For example `arch_fallen` or `europa`.
    pub name: String,
    /// The language code of two letters, when the name carries one.
    pub language: Option<String>,
    /// For example `0059` or `unp1`.
    pub id: String,
    pub patch: u8,
    /// The full path of the archive.
    pub path: String,
    pub filename: String,
}

/// The parts that a file name is made of.
pub struct PackagePathParts {
    pub platform: Seq<char>,
    pub name: Seq<char>,
    pub language: Option<Seq<char>>,
    pub id: Seq<char>,
    pub patch: u8,
}

/// The parts of a file name. The name must hold at least three underscores.
/// What follows the last is the patch number in decimal, up to the first
/// full stop. What stands between the last two is the id. When at least
/// four underscores are there and the part before the id takes two bytes,
/// that part is the language. The platform is what precedes the first
/// underscore; the name is what lies between the platform and the language
/// or, without language, the id.
pub open spec fn spec_parse_file_name(f: Seq<char>) -> Option<PackagePathParts> {
    match spec_last_index_of(f, '_') {
        None => None,
        Some(u1) => match spec_last_index_of(f.subrange(0, u1), '_') {
            None => None,
            Some(u2) => match spec_last_index_of(f.subrange(0, u2), '_') {
                None => None,
                Some(u3) => {
                    let u0 = spec_index_of(f, '_', 0);
                    let last = f.subrange(u1 + 1, f.len() as int);
                    let dot = spec_index_of(last, '.', 0);
                    let before_id = f.subrange(u3 + 1, u2);
                    match spec_parse_unsigned(encode_utf8(last.subrange(0, dot)), 10, 255) {
                        None => None,
                        Some(patch) => if u0 < u3 && encode_utf8(before_id).len() == 2 {
                            Some(
                                PackagePathParts {
                                    platform: f.subrange(0, u0),
                                    name: f.subrange(u0 + 1, u3),
                                    language: Some(before_id),
                                    id: f.subrange(u2 + 1, u1),
                                    patch: patch as u8,
                                },
                            )
                        } else {
                            Some(
                                PackagePathParts {
                                    platform: f.subrange(0, u0),
                                    name: f.subrange(u0 + 1, u2),
                                    language: None,
                                    id: f.subrange(u2 + 1, u1),
                                    patch: patch as u8,
                                },
                            )
                        },
                    }
                },
            },
        },
    }
}

/// The archive id that a path carries: the hexadecimal number between its
/// last two underscores, or before its only one.
pub open spec fn spec_pkg_id_of_path(path: Seq<char>) -> Option<u16> {
    match spec_last_index_of(path, '_') {
        None => None,
        Some(u1) => {
            let head = path.subrange(0, u1);
            let segment = match spec_last_index_of(head, '_') {
                Some(u2) => head.subrange(u2 + 1, u1),
                None => head,
            };
            match spec_parse_unsigned(encode_utf8(segment), 16, 0xffff) {
                Some(v) => Some(v as u16),
                None => None,
            }
        },
    }
}

/// Reads the archive id that a path carries.
pub fn pkg_id_of_path(path: &str) -> (r: Option<u16>)
    ensures
        r == spec_pkg_id_of_path(path@),
{
    let u1: usize = match last_index_of(path, '_') {
        Some(i) => i,
        None => {
            return None;
        },
    };
    proof {
        lemma_last_index_of(path@, '_');
    }
    let head: &str = path.substring_char(0, u1);
    let segment: &str = match last_index_of(head, '_') {
        Some(u2) => {
            proof {
                lemma_last_index_of(head@, '_');
            }
            head.substring_char(u2 + 1, u1)
        },
        None => head,
    };
    match parse_unsigned(segment.as_bytes(), 16, 0xffff) {
        Some(v) => Some(v as u16),
        None => None,
    }
}

impl PackagePath {
    /// Whether `self` holds the given parts, path and file name.
    pub open spec fn spec_holds(&self, parts: PackagePathParts, path: Seq<char>, filename: Seq<char>) -> bool {
        &&& self.platform@ == parts.platform
        &&& self.name@ == parts.name
        &&& match (self.language, parts.language) {
            (Some(a), Some(b)) => a@ == b,
            (None, None) => true,
            _ => false,
        }
        &&& self.id@ == parts.id
        &&& self.patch == parts.patch
        &&& self.path@ == path
        &&& self.filename@ == filename
    }

    /// The parts for a path whose file name does not have the form of an
    /// archive's.
    pub open spec fn spec_default_parts() -> PackagePathParts {
        PackagePathParts {
            platform: "unknown"@,
            name: "unknown"@,
            language: None,
            id: "unknown"@,
            patch: 0,
        }
    }

    /// Takes a file name apart. Nothing when it does not have the form of an
    /// archive's.
    pub fn from_file_name(path: &str, filename: &str) -> (r: Option<PackagePath>)
        ensures
            match r {
                Some(p) => spec_parse_file_name(filename@) matches Some(parts) && p.spec_holds(
                    parts,
                    path@,
                    filename@,
                ),
                None => spec_parse_file_name(filename@) is None,
            },
    {
        let n: usize = filename.unicode_len();
        let u1: usize = match last_index_of(filename, '_') {
            Some(i) => i,
            None => {
                return None;
            },
        };
        proof {
            lemma_last_index_of(filename@, '_');
        }
        let f1: &str = filename.substring_char(0, u1);
        let u2: usize = match last_index_of(f1, '_') {
            Some(i) => i,
            None => {
                return None;
            },
        };
        proof {
            lemma_last_index_of(f1@, '_');
        }
        let f2: &str = filename.substring_char(0, u2);
        assert(f2@ =~= f1@.subrange(0, u2 as int));
        let u3: usize = match last_index_of(f2, '_') {
            Some(i) => i,
            None => {
                return None;
            },
        };
        proof {
            lemma_last_index_of(f2@, '_');
        }
        let u0: usize = index_of(filename, '_');
        proof {
            assert(filename@[u3 as int] == '_');
            if u0 > u3 {
                assert(filename@[u3 as int] != '_');
            }
        }
        let last: &str = filename.substring_char(u1 + 1, n);
        let dot: usize = index_of(last, '.');
        let patch_text: &str = last.substring_char(0, dot);
        let patch: u8 = match parse_unsigned(patch_text.as_bytes(), 10, 255) {
            Some(v) => v as u8,
            None => {
                return None;
            },
        };
        let id: &str = filename.substring_char(u2 + 1, u1);
        let before_id: &str = filename.substring_char(u3 + 1, u2);
        let platform: String = String::from_str(filename.substring_char(0, u0));
        if u0 < u3 && before_id.as_bytes().len() == 2 {
            Some(
                PackagePath {
                    platform,
                    name: String::from_str(filename.substring_char(u0 + 1, u3)),
                    language: Some(String::from_str(before_id)),
                    id: String::from_str(id),
                    patch,
                    path: String::from_str(path),
                    filename: String::from_str(filename),
                },
            )
        } else {
            Some(
                PackagePath {
                    platform,
                    name: String::from_str(filename.substring_char(u0 + 1, u2)),
                    language: None,
                    id: String::from_str(id),
                    patch,
                    path: String::from_str(path),
                    filename: String::from_str(filename),
                },
            )
        }
    }

    /// Takes the file name of a path apart. Nothing when the path has no
    /// file name or the file name does not have the form of an archive's.
    pub fn parse(path: &str) -> (r: Option<PackagePath>)
        ensures
            r matches Some(p) ==> p.path@ == path@ && spec_is_part(path@, p.filename@) && (spec_parse_file_name(
                p.filename@,
            ) matches Some(parts) && p.spec_holds(parts, path@, p.filename@)),
    {
        match file_name_of(path) {
            Some(filename) => Self::from_file_name(path, filename.as_str()),
            None => None,
        }
    }

    /// The parts of a path whose file name is not an archive's: `unknown`
    /// for platform, name and id, and patch zero.
    pub fn unknown(path: &str, filename: &str) -> (p: PackagePath)
        ensures
            p.spec_holds(Self::spec_default_parts(), path@, filename@),
    {
        PackagePath {
            platform: String::from_str("unknown"),
            name: String::from_str("unknown"),
            language: None,
            id: String::from_str("unknown"),
            patch: 0,
            path: String::from_str(path),
            filename: String::from_str(filename),
        }
    }

    /// The parts of a path with the given file name, or those that stand for
    /// an unknown archive when the file name is not an archive's. A path
    /// without file name counts as unknown, and as its own file name.
    pub fn with_defaults(path: &str, filename: Option<&str>) -> (p: PackagePath)
        ensures
            match filename {
                Some(f) => match spec_parse_file_name(f@) {
                    Some(parts) => p.spec_holds(parts, path@, f@),
                    None => p.spec_holds(Self::spec_default_parts(), path@, f@),
                },
                None => p.spec_holds(Self::spec_default_parts(), path@, path@),
            },
    {
        match filename {
            Some(f) => match Self::from_file_name(path, f) {
                Some(p) => p,
                None => Self::unknown(path, f),
            },
            None => Self::unknown(path, path),
        }
    }

    /// Takes the file name of a path apart, or gives the parts that stand
    /// for an unknown archive.
    pub fn parse_with_defaults(path: &str) -> (p: PackagePath)
        ensures
            p.path@ == path@,
            spec_is_part(path@, p.filename@),
            spec_parse_file_name(p.filename@) matches Some(parts) ==> p.spec_holds(parts, path@, p.filename@)
                || (p.filename@ == path@ && p.spec_holds(Self::spec_default_parts(), path@, path@)),
            spec_parse_file_name(p.filename@) is None ==> p.spec_holds(
                Self::spec_default_parts(),
                path@,
                p.filename@,
            ),
    {
        match file_name_of(path) {
            Some(filename) => Self::with_defaults(path, Some(filename.as_str())),
            None => {
                proof {
                    assert(path@.subrange(0int, 0int + path@.len()) =~= path@);
                }
                Self::with_defaults(path, None)
            },
        }
    }

    /// The file name.
    pub fn to_string(&self) -> (s: String)
        ensures
            s@ == self.filename@,
    {
        self.filename.clone()
    }
}

impl Clone for PackagePath {
    fn clone(&self) -> (r: Self)
        ensures
            r == *self,
    {
        PackagePath {
            platform: self.platform.clone(),
            name: self.name.clone(),
            language: match &self.language {
                Some(l) => Some(l.clone()),
                None => None,
            },
            id: self.id.clone(),
            patch: self.patch,
            path: self.path.clone(),
            filename: self.filename.clone(),
        }
    }
}

} // verus!
