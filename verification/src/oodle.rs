//! The two versions of the block codec, and what is made of a codec's answer.

use vstd::prelude::*;
use vstd::string::StringExecFns;
use crate::error::PkgError;
use crate::text::{decimal, spec_decimal};

verus! {

/// Number of bytes in a fully decoded block.
pub const BLOCK_SIZE: usize = 0x40000;

/// A version of the block codec.
#[derive(Clone, Copy, Debug, PartialEq, Eq, Structural)]
pub enum OodleVersion {
    V3,
    V9,
}

impl OodleVersion {
    /// The version as a number.
    pub fn num(self) -> (n: u32)
        ensures
            n == self.spec_num(),
    {
        match self {
            OodleVersion::V3 => 3,
            OodleVersion::V9 => 9,
        }
    }

    /// The version as a number.
    pub open spec fn spec_num(self) -> u32 {
        match self {
            OodleVersion::V3 => 3,
            OodleVersion::V9 => 9,
        }
    }

    /// The file name under which the codec's shared library is looked for,
    /// on Windows or elsewhere.
    pub fn library_name(self, windows: bool) -> (name: String)
        ensures
            name@ == if windows {
                "oo2core_"@ + spec_decimal(self.spec_num() as nat) + "_win64.dll"@
            } else {
                "liblinoodle"@ + spec_decimal(self.spec_num() as nat) + ".so"@
            },
    {
        let digits = decimal(self.num() as u64);
        if windows {
            let mut name = String::from_str("oo2core_");
            name.append(digits.as_str());
            name.append("_win64.dll");
            name
        } else {
            let mut name = String::from_str("liblinoodle");
            name.append(digits.as_str());
            name.append(".so");
            name
        }
    }
}

/// What a codec call came to: nothing when the codec is not loaded, else the
/// length it reported and the output buffer it filled.
pub type CodecOutcome = Option<(i64, Vec<u8>)>;

/// The decoded block that a codec outcome stands for.
pub open spec fn spec_decoded_block(outcome: Option<(i64, Seq<u8>)>) -> Result<Seq<u8>, PkgError> {
    match outcome {
        None => Err(PkgError::CodecUnavailable),
        Some((n, buffer)) => if n <= 0 || buffer.len() != BLOCK_SIZE {
            Err(PkgError::CodecFailed)
        } else {
            Ok(buffer)
        },
    }
}

/// The view of a codec outcome.
pub open spec fn spec_outcome_view(outcome: CodecOutcome) -> Option<(i64, Seq<u8>)> {
    match outcome {
        None => None,
        Some((n, buffer)) => Some((n, buffer@)),
    }
}

/// Turns a codec outcome into the decoded block: the whole output buffer
/// when the codec reported a positive length and the buffer has the size of
/// a block.
pub fn decoded_block(outcome: CodecOutcome) -> (r: Result<Vec<u8>, PkgError>)
    ensures
        match r {
            Ok(v) => spec_decoded_block(spec_outcome_view(outcome)) == Ok::<Seq<u8>, PkgError>(v@),
            Err(e) => spec_decoded_block(spec_outcome_view(outcome)) == Err::<Seq<u8>, PkgError>(e),
        },
{
    match outcome {
        None => Err(PkgError::CodecUnavailable),
        Some((n, buffer)) => {
            if n <= 0 || buffer.len() != BLOCK_SIZE {
                Err(PkgError::CodecFailed)
            } else {
                Ok(buffer)
            }
        },
    }
}

/// Whether `result` is what the codec of the given version made of the
/// bytes `plain`: the decoded block or the error that one of its answers
/// stands for.
pub open spec fn spec_codec_gave<C: Fn(OodleVersion, &Vec<u8>) -> CodecOutcome>(
    codec: &C,
    version: OodleVersion,
    plain: Seq<u8>,
    result: Result<Seq<u8>, PkgError>,
) -> bool {
    exists|input: Vec<u8>, outcome: CodecOutcome| #[trigger]
        (*codec).ensures((version, &input), outcome) && input@ == plain && spec_decoded_block(
            spec_outcome_view(outcome),
        ) == result
}

/// What the codec makes of bytes, for each version: the relation between a
/// version, the bytes handed in and the decoded block or error.
pub open spec fn spec_codec<C: Fn(OodleVersion, &Vec<u8>) -> CodecOutcome>(codec: &C) -> spec_fn(
    OodleVersion,
    Seq<u8>,
    Result<Seq<u8>, PkgError>,
) -> bool {
    |version: OodleVersion, plain: Seq<u8>, result: Result<Seq<u8>, PkgError>|
        spec_codec_gave(codec, version, plain, result)
}

/// The view of a result that carries bytes.
pub open spec fn spec_result_view(r: Result<Vec<u8>, PkgError>) -> Result<Seq<u8>, PkgError> {
    match r {
        Ok(v) => Ok(v@),
        Err(e) => Err(e),
    }
}

/// Runs the bytes of a compressed block through the codec of the given
/// version and takes what comes back as the decoded block.
pub fn decompress<C>(codec: &C, version: OodleVersion, buffer: &Vec<u8>) -> (r: Result<Vec<u8>, PkgError>) where
    C: Fn(OodleVersion, &Vec<u8>) -> CodecOutcome,

    requires
        forall|v: OodleVersion, input: &Vec<u8>| (*codec).requires((v, input)),
    ensures
        spec_codec_gave(codec, version, buffer@, spec_result_view(r)),
        r matches Ok(block) ==> block@.len() == BLOCK_SIZE,
{
    let outcome: CodecOutcome = (*codec)(version, buffer);
    let r = decoded_block(outcome);
    proof {
        assert((*codec).ensures((version, buffer), outcome));
        assert(spec_codec_gave(codec, version, buffer@, spec_result_view(r)));
    }
    r
}

/// Decompresses with the older codec. `CodecUnavailable` when it is not
/// loaded, `CodecFailed` when it reports that it wrote nothing.
pub fn decompress_3<C>(codec: &C, buffer: &Vec<u8>) -> (r: Result<Vec<u8>, PkgError>) where
    C: Fn(OodleVersion, &Vec<u8>) -> CodecOutcome,

    requires
        forall|v: OodleVersion, input: &Vec<u8>| (*codec).requires((v, input)),
    ensures
        spec_codec_gave(codec, OodleVersion::V3, buffer@, spec_result_view(r)),
        r matches Ok(block) ==> block@.len() == BLOCK_SIZE,
{
    decompress(codec, OodleVersion::V3, buffer)
}

/// Decompresses with the newer codec. `CodecUnavailable` when it is not
/// loaded, `CodecFailed` when it reports that it wrote nothing.
pub fn decompress_9<C>(codec: &C, buffer: &Vec<u8>) -> (r: Result<Vec<u8>, PkgError>) where
    C: Fn(OodleVersion, &Vec<u8>) -> CodecOutcome,

    requires
        forall|v: OodleVersion, input: &Vec<u8>| (*codec).requires((v, input)),
    ensures
        spec_codec_gave(codec, OodleVersion::V9, buffer@, spec_result_view(r)),
        r matches Ok(block) ==> block@.len() == BLOCK_SIZE,
{
    decompress(codec, OodleVersion::V9, buffer)
}

} // verus!
