//! The error kinds that archive and fleet operations report.

use vstd::prelude::*;

verus! {

/// Why an operation on an archive or on the fleet index failed.
#[derive(Clone, Copy, Debug, PartialEq, Eq, Structural)]
pub enum PkgError {
    /// The header is truncated, or its version, magic or an enumerated field
    /// holds a value the generation does not allow.
    HeaderInvalid,
    /// A table reaches past the end of its file, or an entry or block index
    /// is out of range.
    TableOutOfBounds,
    /// A block lives in the patch file with this id, and that file has not
    /// been made available.
    SiblingMissing(u16),
    /// Authentication failed under one of the built-in keys.
    DecryptFailed,
    /// The block asks for a key registered under the archive's group id, and
    /// none is registered or the registered one does not authenticate.
    RedactedUnavailable,
    /// A compressed block was met and the codec for it is not loaded.
    CodecUnavailable,
    /// The codec reported that it produced nothing for a compressed block.
    CodecFailed,
    /// The generation is known but has no reader.
    Unimplemented,
    /// A cache document was written by another version of the cache format.
    CacheOutdated,
    /// The tag or alias is not in the index.
    NotFound,
}

impl PkgError {
    /// A short description for people.
    pub fn message(&self) -> (s: &'static str)
        ensures
            s@ == Self::spec_message(*self)@,
    {
        match self {
            PkgError::HeaderInvalid => "package header is invalid",
            PkgError::TableOutOfBounds => "table or index is out of bounds",
            PkgError::SiblingMissing(_) => "patch file of the package is missing",
            PkgError::DecryptFailed => "failed to decrypt package data block",
            PkgError::RedactedUnavailable => "no working key found for the package group",
            PkgError::CodecUnavailable => "decompression library is not loaded",
            PkgError::CodecFailed => "decompression of a data block failed",
            PkgError::Unimplemented => "package version is not implemented",
            PkgError::CacheOutdated => "cache is outdated",
            PkgError::NotFound => "tag or hash not found",
        }
    }

    /// The short description of an error.
    pub open spec fn spec_message(e: PkgError) -> &'static str {
        match e {
            PkgError::HeaderInvalid => "package header is invalid",
            PkgError::TableOutOfBounds => "table or index is out of bounds",
            PkgError::SiblingMissing(_) => "patch file of the package is missing",
            PkgError::DecryptFailed => "failed to decrypt package data block",
            PkgError::RedactedUnavailable => "no working key found for the package group",
            PkgError::CodecUnavailable => "decompression library is not loaded",
            PkgError::CodecFailed => "decompression of a data block failed",
            PkgError::Unimplemented => "package version is not implemented",
            PkgError::CacheOutdated => "cache is outdated",
            PkgError::NotFound => "tag or hash not found",
        }
    }
}

} // verus!
