//! The generations of the archive format, and what each determines: byte
//! order, names, key material and codec.

use vstd::prelude::*;
use vstd::string::StringExecFns;
use crate::bytes::Endian;
use crate::crypto::{GroupKey, KeyTable};
use crate::d1_internal_alpha::PackageD1InternalAlpha;
use crate::d1_roi::PackageD1RiseOfIron;
use crate::d2_beta::PackageD2Beta;
use crate::d2_beyondlight::PackageD2BeyondLight;
use crate::d2_prebl::PackageD2PreBL;
use crate::dispatch::AnyPackage;
use crate::error::PkgError;
use crate::oodle::OodleVersion;
use crate::package::Package;

verus! {

/// What a generation of the format determines.
pub trait Version: Sized {
    /// Opens an archive of the generation from the image of its file, which
    /// lies under `path`. `Unimplemented` when the generation has no reader.
    fn open(&self, path: &str, reader: Vec<u8>, keys: &KeyTable) -> (r: Result<AnyPackage, PkgError>)
        ensures
            r matches Ok(p) ==> p.wf(),
    ;

    /// The byte order of the records inside entries.
    fn endian(&self) -> Endian;

    /// The name of the generation for people.
    fn name(&self) -> &'static str;

    /// The short name of the generation, as command lines and cache keys
    /// carry it.
    fn id(&self) -> String;

    /// The first built-in block key.
    fn aes_key_0(&self) -> (key: [u8; 16]);

    /// The second built-in block key.
    fn aes_key_1(&self) -> (key: [u8; 16]);

    /// The nonce from which every archive's own nonce is derived.
    fn aes_nonce_base(&self) -> (nonce: [u8; 12]);
}

/// A generation of the second title family.
#[derive(Clone, Copy, Debug, PartialEq, Eq, Structural)]
pub enum MarathonVersion {
    /// Closed alpha of April 2025.
    MarathonAlpha,
}

/// A generation of the first title family, oldest first.
#[derive(Clone, Copy, Debug, PartialEq, Eq, Structural)]
pub enum DestinyVersion {
    /// Internal alpha of December 2013, for the X360.
    DestinyInternalAlpha,
    /// First Look Alpha, for the PS4.
    DestinyFirstLookAlpha,
    /// The Taken King, for PS3 and X360.
    DestinyTheTakenKing,
    /// Rise of Iron, the last of the first title.
    DestinyRiseOfIron,
    /// The beta of the second title.
    Destiny2Beta,
    /// Forsaken.
    Destiny2Forsaken,
    /// Shadowkeep, the last before Beyond Light.
    Destiny2Shadowkeep,
    /// Beyond Light.
    Destiny2BeyondLight,
    /// Witch Queen.
    Destiny2WitchQueen,
    /// Lightfall.
    Destiny2Lightfall,
    /// The Final Shape.
    Destiny2TheFinalShape,
}

/// A generation of any family.
#[derive(Clone, Copy, Debug, PartialEq, Eq, Structural)]
pub enum GameVersion {
    Destiny(DestinyVersion),
    Marathon(MarathonVersion),
}

/// The first built-in block key of the first title family.
pub open spec fn spec_destiny_key_0() -> Seq<u8> {
    seq![
        0xD6u8, 0x2A, 0xB2, 0xC1, 0x0C, 0xC0, 0x1B, 0xC5, 0x35, 0xDB, 0x7B, 0x86, 0x55, 0xC7, 0xDC, 0x3B,
    ]
}

/// The second built-in block key of the first title family.
pub open spec fn spec_destiny_key_1() -> Seq<u8> {
    seq![
        0x3Au8, 0x4A, 0x5D, 0x36, 0x73, 0xA6, 0x60, 0x58, 0x7E, 0x63, 0xE6, 0x76, 0xE4, 0x08, 0x92, 0xB5,
    ]
}

/// The nonce base of the first title family.
pub open spec fn spec_destiny_nonce_base() -> Seq<u8> {
    seq![0x84u8, 0xDF, 0x11, 0xC0, 0xAC, 0xAB, 0xFA, 0x20, 0x33, 0x11, 0x26, 0x99]
}

impl DestinyVersion {
    /// The number of the generation: the title times ten thousand plus the
    /// release within it. Later generations have greater numbers.
    pub open spec fn spec_number(self) -> u32 {
        match self {
            DestinyVersion::DestinyInternalAlpha => 10500,
            DestinyVersion::DestinyFirstLookAlpha => 10800,
            DestinyVersion::DestinyTheTakenKing => 12000,
            DestinyVersion::DestinyRiseOfIron => 12400,
            DestinyVersion::Destiny2Beta => 21000,
            DestinyVersion::Destiny2Forsaken => 22000,
            DestinyVersion::Destiny2Shadowkeep => 22600,
            DestinyVersion::Destiny2BeyondLight => 23000,
            DestinyVersion::Destiny2WitchQueen => 24000,
            DestinyVersion::Destiny2Lightfall => 27000,
            DestinyVersion::Destiny2TheFinalShape => 28000,
        }
    }

    /// The number of the generation.
    pub fn number(&self) -> (n: u32)
        ensures
            n == self.spec_number(),
    {
        match self {
            DestinyVersion::DestinyInternalAlpha => 10500,
            DestinyVersion::DestinyFirstLookAlpha => 10800,
            DestinyVersion::DestinyTheTakenKing => 12000,
            DestinyVersion::DestinyRiseOfIron => 12400,
            DestinyVersion::Destiny2Beta => 21000,
            DestinyVersion::Destiny2Forsaken => 22000,
            DestinyVersion::Destiny2Shadowkeep => 22600,
            DestinyVersion::Destiny2BeyondLight => 23000,
            DestinyVersion::Destiny2WitchQueen => 24000,
            DestinyVersion::Destiny2Lightfall => 27000,
            DestinyVersion::Destiny2TheFinalShape => 28000,
        }
    }

    /// Whether the generation belongs to the first title.
    pub fn is_d1(&self) -> (b: bool)
        ensures
            b == (self.spec_number() <= DestinyVersion::DestinyRiseOfIron.spec_number()),
    {
        self.number() <= 12400
    }

    /// Whether the generation belongs to the second title.
    pub fn is_d2(&self) -> (b: bool)
        ensures
            b == (self.spec_number() >= DestinyVersion::Destiny2Beta.spec_number()),
            b == !(self.spec_number() <= DestinyVersion::DestinyRiseOfIron.spec_number()),
    {
        self.number() >= 21000
    }

    /// Whether the generation belongs to the second title and came before
    /// Beyond Light.
    pub fn is_prebl(&self) -> (b: bool)
        ensures
            b == (DestinyVersion::Destiny2Beta.spec_number() <= self.spec_number()
                <= DestinyVersion::Destiny2Shadowkeep.spec_number()),
    {
        let n: u32 = self.number();
        21000 <= n && n <= 22600
    }

    /// The codec that compressed blocks of the generation need: the older
    /// one up to Shadowkeep, the newer one from Beyond Light on.
    pub fn oodle_version(&self) -> (v: OodleVersion)
        ensures
            v == self.spec_oodle_version(),
    {
        if self.number() >= 23000 {
            OodleVersion::V9
        } else {
            OodleVersion::V3
        }
    }

    /// The codec of the generation.
    pub open spec fn spec_oodle_version(self) -> OodleVersion {
        if self.spec_number() >= DestinyVersion::Destiny2BeyondLight.spec_number() {
            OodleVersion::V9
        } else {
            OodleVersion::V3
        }
    }

    /// The byte order of the records inside entries: big in the internal
    /// alpha and in The Taken King, little elsewhere.
    pub open spec fn spec_endian(self) -> Endian {
        if self == DestinyVersion::DestinyInternalAlpha || self == DestinyVersion::DestinyTheTakenKing {
            Endian::Big
        } else {
            Endian::Little
        }
    }

    /// The second byte of every archive nonce of the generation.
    pub fn nonce_marker(&self) -> (m: u8)
        ensures
            m == self.spec_nonce_marker(),
    {
        match self {
            DestinyVersion::DestinyInternalAlpha => 0xf9,
            DestinyVersion::DestinyFirstLookAlpha => 0xf9,
            DestinyVersion::DestinyTheTakenKing => 0xf9,
            DestinyVersion::DestinyRiseOfIron => 0xf9,
            DestinyVersion::Destiny2Beta => 0xf9,
            DestinyVersion::Destiny2Forsaken => 0xf9,
            DestinyVersion::Destiny2Shadowkeep => 0xf9,
            _ => 0xea,
        }
    }

    /// `0xf9` up to Shadowkeep, `0xea` from Beyond Light on.
    pub open spec fn spec_nonce_marker(self) -> u8 {
        if self.spec_number() <= DestinyVersion::Destiny2Shadowkeep.spec_number() {
            0xf9
        } else {
            0xea
        }
    }

    /// The short name of the generation.
    pub open spec fn spec_id(self) -> Seq<char> {
        match self {
            DestinyVersion::DestinyInternalAlpha => "d1_devalpha"@,
            DestinyVersion::DestinyFirstLookAlpha => "d1_fla"@,
            DestinyVersion::DestinyTheTakenKing => "d1_ttk"@,
            DestinyVersion::DestinyRiseOfIron => "d1_roi"@,
            DestinyVersion::Destiny2Beta => "d2_beta"@,
            DestinyVersion::Destiny2Forsaken => "d2_fs"@,
            DestinyVersion::Destiny2Shadowkeep => "d2_sk"@,
            DestinyVersion::Destiny2BeyondLight => "d2_bl"@,
            DestinyVersion::Destiny2WitchQueen => "d2_wq"@,
            DestinyVersion::Destiny2Lightfall => "d2_lf"@,
            DestinyVersion::Destiny2TheFinalShape => "d2_tfs"@,
        }
    }

    /// The name of the generation for people.
    pub open spec fn spec_name(self) -> Seq<char> {
        match self {
            DestinyVersion::DestinyInternalAlpha => "Destiny X360 Internal Alpha"@,
            DestinyVersion::DestinyFirstLookAlpha => "Destiny First Look Alpha"@,
            DestinyVersion::DestinyTheTakenKing => "Destiny: The Taken King"@,
            DestinyVersion::DestinyRiseOfIron => "Destiny: Rise of Iron"@,
            DestinyVersion::Destiny2Beta => "Destiny 2: Beta"@,
            DestinyVersion::Destiny2Forsaken => "Destiny 2: Forsaken"@,
            DestinyVersion::Destiny2Shadowkeep => "Destiny 2: Shadowkeep"@,
            DestinyVersion::Destiny2BeyondLight => "Destiny 2: Beyond Light"@,
            DestinyVersion::Destiny2WitchQueen => "Destiny 2: Witch Queen"@,
            DestinyVersion::Destiny2Lightfall => "Destiny 2: Lightfall"@,
            DestinyVersion::Destiny2TheFinalShape => "Destiny 2: The Final Shape"@,
        }
    }

    /// The short name of the generation as a literal.
    pub fn id_str(&self) -> (s: &'static str)
        ensures
            s@ == self.spec_id(),
    {
        match self {
            DestinyVersion::DestinyInternalAlpha => "d1_devalpha",
            DestinyVersion::DestinyFirstLookAlpha => "d1_fla",
            DestinyVersion::DestinyTheTakenKing => "d1_ttk",
            DestinyVersion::DestinyRiseOfIron => "d1_roi",
            DestinyVersion::Destiny2Beta => "d2_beta",
            DestinyVersion::Destiny2Forsaken => "d2_fs",
            DestinyVersion::Destiny2Shadowkeep => "d2_sk",
            DestinyVersion::Destiny2BeyondLight => "d2_bl",
            DestinyVersion::Destiny2WitchQueen => "d2_wq",
            DestinyVersion::Destiny2Lightfall => "d2_lf",
            DestinyVersion::Destiny2TheFinalShape => "d2_tfs",
        }
    }
}

impl DestinyVersion {
    /// Whether `r` is what opening the image `s` under `path` comes to for
    /// this generation: the reader of the generation's layout, or the error
    /// that the layout's reader gives. The Taken King has no reader. Forsaken
    /// is read as Shadowkeep is.
    pub open spec fn spec_opened(
        self,
        path: Seq<char>,
        s: Seq<u8>,
        keys: Map<u64, GroupKey>,
        r: Result<AnyPackage, PkgError>,
    ) -> bool {
        match self {
            DestinyVersion::DestinyInternalAlpha => match r {
                Ok(AnyPackage::D1InternalAlpha(p)) => p.opened_from(s, path),
                Ok(_) => false,
                Err(e) => e == spec_open_error(crate::d1_internal_alpha::structs::PackageHeader::spec_valid(s)),
            },
            DestinyVersion::DestinyFirstLookAlpha | DestinyVersion::DestinyRiseOfIron => match r {
                Ok(AnyPackage::D1RiseOfIron(p)) => p.opened_from(s, path),
                Ok(_) => false,
                Err(e) => e == spec_open_error(crate::d1_roi::structs::PackageHeader::spec_valid(s)),
            },
            DestinyVersion::DestinyTheTakenKing => r matches Err(PkgError::Unimplemented),
            DestinyVersion::Destiny2Beta => match r {
                Ok(AnyPackage::D2Beta(p)) => p.opened_from(s, path, keys),
                Ok(_) => false,
                Err(e) => e == spec_open_error(crate::d2_beta::structs::PackageHeader::spec_valid(s)),
            },
            DestinyVersion::Destiny2Forsaken | DestinyVersion::Destiny2Shadowkeep => match r {
                Ok(AnyPackage::D2PreBL(p)) => p.opened_from(s, path, keys),
                Ok(_) => false,
                Err(e) => e == spec_open_error(crate::d2_prebl::structs::PackageHeader::spec_valid(s)),
            },
            _ => match r {
                Ok(AnyPackage::D2BeyondLight(p)) => p.opened_from(s, path, self, keys),
                Ok(_) => false,
                Err(e) => e == spec_open_error(crate::d2_beyondlight::structs::PackageHeader::spec_valid(s)),
            },
        }
    }

    /// Whether the image `s` can be opened as an archive of this generation.
    pub open spec fn spec_can_open(self, s: Seq<u8>) -> bool {
        match self {
            DestinyVersion::DestinyInternalAlpha => crate::d1_internal_alpha::structs::PackageHeader::spec_valid(
                s,
            ) && PackageD1InternalAlpha::spec_tables_readable(s),
            DestinyVersion::DestinyFirstLookAlpha | DestinyVersion::DestinyRiseOfIron => {
                crate::d1_roi::structs::PackageHeader::spec_valid(s) && PackageD1RiseOfIron::spec_tables_readable(
                    s,
                )
            },
            DestinyVersion::DestinyTheTakenKing => false,
            DestinyVersion::Destiny2Beta => crate::d2_beta::structs::PackageHeader::spec_valid(s)
                && PackageD2Beta::spec_tables_readable(s),
            DestinyVersion::Destiny2Forsaken | DestinyVersion::Destiny2Shadowkeep => {
                crate::d2_prebl::structs::PackageHeader::spec_valid(s) && PackageD2PreBL::spec_tables_readable(s)
            },
            _ => crate::d2_beyondlight::structs::PackageHeader::spec_valid(s)
                && PackageD2BeyondLight::spec_tables_readable(
                s,
                crate::d2_beyondlight::structs::PackageHeader::spec_decode(s),
            ),
        }
    }
}

/// The error of an image that cannot be opened: `HeaderInvalid` when its
/// header is not valid, else `TableOutOfBounds`, for a table that does not
/// lie inside it.
pub open spec fn spec_open_error(header_valid: bool) -> PkgError {
    if !header_valid {
        PkgError::HeaderInvalid
    } else {
        PkgError::TableOutOfBounds
    }
}

impl Version for DestinyVersion {
    fn open(&self, path: &str, reader: Vec<u8>, keys: &KeyTable) -> (r: Result<AnyPackage, PkgError>)
        ensures
            self.spec_opened(path@, reader@, keys@, r),
            r is Ok <==> self.spec_can_open(reader@),
    {
        match self {
            DestinyVersion::DestinyInternalAlpha => match PackageD1InternalAlpha::from_reader(path, reader) {
                Ok(p) => Ok(AnyPackage::D1InternalAlpha(p)),
                Err(e) => Err(e),
            },
            DestinyVersion::DestinyFirstLookAlpha => match PackageD1RiseOfIron::from_reader(path, reader) {
                Ok(p) => Ok(AnyPackage::D1RiseOfIron(p)),
                Err(e) => Err(e),
            },
            DestinyVersion::DestinyTheTakenKing => Err(PkgError::Unimplemented),
            DestinyVersion::DestinyRiseOfIron => match PackageD1RiseOfIron::from_reader(path, reader) {
                Ok(p) => Ok(AnyPackage::D1RiseOfIron(p)),
                Err(e) => Err(e),
            },
            DestinyVersion::Destiny2Beta => match PackageD2Beta::from_reader(path, reader, keys) {
                Ok(p) => Ok(AnyPackage::D2Beta(p)),
                Err(e) => Err(e),
            },
            DestinyVersion::Destiny2Forsaken => match PackageD2PreBL::from_reader(path, reader, keys) {
                Ok(p) => Ok(AnyPackage::D2PreBL(p)),
                Err(e) => Err(e),
            },
            DestinyVersion::Destiny2Shadowkeep => match PackageD2PreBL::from_reader(path, reader, keys) {
                Ok(p) => Ok(AnyPackage::D2PreBL(p)),
                Err(e) => Err(e),
            },
            DestinyVersion::Destiny2BeyondLight => match PackageD2BeyondLight::from_reader(
                path,
                reader,
                *self,
                keys,
            ) {
                Ok(p) => Ok(AnyPackage::D2BeyondLight(p)),
                Err(e) => Err(e),
            },
            DestinyVersion::Destiny2WitchQueen => match PackageD2BeyondLight::from_reader(
                path,
                reader,
                *self,
                keys,
            ) {
                Ok(p) => Ok(AnyPackage::D2BeyondLight(p)),
                Err(e) => Err(e),
            },
            DestinyVersion::Destiny2Lightfall => match PackageD2BeyondLight::from_reader(
                path,
                reader,
                *self,
                keys,
            ) {
                Ok(p) => Ok(AnyPackage::D2BeyondLight(p)),
                Err(e) => Err(e),
            },
            DestinyVersion::Destiny2TheFinalShape => match PackageD2BeyondLight::from_reader(
                path,
                reader,
                *self,
                keys,
            ) {
                Ok(p) => Ok(AnyPackage::D2BeyondLight(p)),
                Err(e) => Err(e),
            },
        }
    }

    fn endian(&self) -> (e: Endian)
        ensures
            e == self.spec_endian(),
    {
        match self {
            DestinyVersion::DestinyInternalAlpha => Endian::Big,
            DestinyVersion::DestinyTheTakenKing => Endian::Big,
            _ => Endian::Little,
        }
    }

    fn name(&self) -> (s: &'static str)
        ensures
            s@ == self.spec_name(),
    {
        match self {
            DestinyVersion::DestinyInternalAlpha => "Destiny X360 Internal Alpha",
            DestinyVersion::DestinyFirstLookAlpha => "Destiny First Look Alpha",
            DestinyVersion::DestinyTheTakenKing => "Destiny: The Taken King",
            DestinyVersion::DestinyRiseOfIron => "Destiny: Rise of Iron",
            DestinyVersion::Destiny2Beta => "Destiny 2: Beta",
            DestinyVersion::Destiny2Forsaken => "Destiny 2: Forsaken",
            DestinyVersion::Destiny2Shadowkeep => "Destiny 2: Shadowkeep",
            DestinyVersion::Destiny2BeyondLight => "Destiny 2: Beyond Light",
            DestinyVersion::Destiny2WitchQueen => "Destiny 2: Witch Queen",
            DestinyVersion::Destiny2Lightfall => "Destiny 2: Lightfall",
            DestinyVersion::Destiny2TheFinalShape => "Destiny 2: The Final Shape",
        }
    }

    fn id(&self) -> (s: String)
        ensures
            s@ == self.spec_id(),
    {
        String::from_str(self.id_str())
    }

    fn aes_key_0(&self) -> (key: [u8; 16])
        ensures
            key@ == spec_destiny_key_0(),
    {
        let key: [u8; 16] = [
            0xD6, 0x2A, 0xB2, 0xC1, 0x0C, 0xC0, 0x1B, 0xC5, 0x35, 0xDB, 0x7B, 0x86, 0x55, 0xC7, 0xDC, 0x3B,
        ];
        assert(key@ =~= spec_destiny_key_0());
        key
    }

    fn aes_key_1(&self) -> (key: [u8; 16])
        ensures
            key@ == spec_destiny_key_1(),
    {
        let key: [u8; 16] = [
            0x3A, 0x4A, 0x5D, 0x36, 0x73, 0xA6, 0x60, 0x58, 0x7E, 0x63, 0xE6, 0x76, 0xE4, 0x08, 0x92, 0xB5,
        ];
        assert(key@ =~= spec_destiny_key_1());
        key
    }

    fn aes_nonce_base(&self) -> (nonce: [u8; 12])
        ensures
            nonce@ == spec_destiny_nonce_base(),
    {
        let nonce: [u8; 12] = [0x84, 0xDF, 0x11, 0xC0, 0xAC, 0xAB, 0xFA, 0x20, 0x33, 0x11, 0x26, 0x99];
        assert(nonce@ =~= spec_destiny_nonce_base());
        nonce
    }
}

impl Version for MarathonVersion {
    fn open(&self, path: &str, reader: Vec<u8>, keys: &KeyTable) -> (r: Result<AnyPackage, PkgError>)
        ensures
            r matches Err(PkgError::Unimplemented),
    {
        Err(PkgError::Unimplemented)
    }

    fn endian(&self) -> (e: Endian)
        ensures
            e == Endian::Little,
    {
        Endian::Little
    }

    fn name(&self) -> (s: &'static str)
        ensures
            s@ == "Marathon Closed Alpha"@,
    {
        "Marathon Closed Alpha"
    }

    fn id(&self) -> (s: String)
        ensures
            s@ == "ma_alpha"@,
    {
        String::from_str("ma_alpha")
    }

    fn aes_key_0(&self) -> (key: [u8; 16])
        ensures
            key@ == Seq::new(16, |i: int| 0u8),
    {
        let key: [u8; 16] = [0u8; 16];
        assert(key@ =~= Seq::new(16, |i: int| 0u8));
        key
    }

    fn aes_key_1(&self) -> (key: [u8; 16])
        ensures
            key@ == Seq::new(16, |i: int| 0u8),
    {
        let key: [u8; 16] = [0u8; 16];
        assert(key@ =~= Seq::new(16, |i: int| 0u8));
        key
    }

    fn aes_nonce_base(&self) -> (nonce: [u8; 12])
        ensures
            nonce@ == Seq::new(12, |i: int| 0u8),
    {
        let nonce: [u8; 12] = [0u8; 12];
        assert(nonce@ =~= Seq::new(12, |i: int| 0u8));
        nonce
    }
}

impl GameVersion {
    /// Whether the image `s` can be opened as an archive of this generation.
    pub open spec fn spec_can_open(self, s: Seq<u8>) -> bool {
        match self {
            GameVersion::Destiny(v) => v.spec_can_open(s),
            GameVersion::Marathon(_) => false,
        }
    }

    /// Whether `r` is what opening the image `s` under `path` comes to for
    /// this generation.
    pub open spec fn spec_opened(
        self,
        path: Seq<char>,
        s: Seq<u8>,
        keys: Map<u64, GroupKey>,
        r: Result<AnyPackage, PkgError>,
    ) -> bool {
        match self {
            GameVersion::Destiny(v) => v.spec_opened(path, s, keys, r),
            GameVersion::Marathon(_) => r matches Err(PkgError::Unimplemented),
        }
    }

    /// The byte order of the records inside entries.
    pub open spec fn spec_endian(self) -> Endian {
        match self {
            GameVersion::Destiny(v) => v.spec_endian(),
            GameVersion::Marathon(_) => Endian::Little,
        }
    }

    /// The name of the generation for people.
    pub open spec fn spec_name(self) -> Seq<char> {
        match self {
            GameVersion::Destiny(v) => v.spec_name(),
            GameVersion::Marathon(_) => "Marathon Closed Alpha"@,
        }
    }

    /// The short name of the generation.
    pub open spec fn spec_id(self) -> Seq<char> {
        match self {
            GameVersion::Destiny(v) => v.spec_id(),
            GameVersion::Marathon(_) => "ma_alpha"@,
        }
    }

    /// The first built-in block key.
    pub open spec fn spec_key_0(self) -> Seq<u8> {
        match self {
            GameVersion::Destiny(_) => spec_destiny_key_0(),
            GameVersion::Marathon(_) => Seq::new(16, |i: int| 0u8),
        }
    }

    /// The second built-in block key.
    pub open spec fn spec_key_1(self) -> Seq<u8> {
        match self {
            GameVersion::Destiny(_) => spec_destiny_key_1(),
            GameVersion::Marathon(_) => Seq::new(16, |i: int| 0u8),
        }
    }

    /// The nonce from which every archive's own nonce is derived.
    pub open spec fn spec_nonce_base(self) -> Seq<u8> {
        match self {
            GameVersion::Destiny(_) => spec_destiny_nonce_base(),
            GameVersion::Marathon(_) => Seq::new(12, |i: int| 0u8),
        }
    }

    /// Every generation that can be named: those of the first family, oldest
    /// first, then that of the second.
    pub open spec fn spec_value_variants() -> Seq<GameVersion> {
        seq![
            GameVersion::Destiny(DestinyVersion::DestinyInternalAlpha),
            GameVersion::Destiny(DestinyVersion::DestinyFirstLookAlpha),
            GameVersion::Destiny(DestinyVersion::DestinyTheTakenKing),
            GameVersion::Destiny(DestinyVersion::DestinyRiseOfIron),
            GameVersion::Destiny(DestinyVersion::Destiny2Beta),
            GameVersion::Destiny(DestinyVersion::Destiny2Forsaken),
            GameVersion::Destiny(DestinyVersion::Destiny2Shadowkeep),
            GameVersion::Destiny(DestinyVersion::Destiny2BeyondLight),
            GameVersion::Destiny(DestinyVersion::Destiny2WitchQueen),
            GameVersion::Destiny(DestinyVersion::Destiny2Lightfall),
            GameVersion::Destiny(DestinyVersion::Destiny2TheFinalShape),
            GameVersion::Marathon(MarathonVersion::MarathonAlpha),
        ]
    }

    /// Every generation that can be named.
    pub fn value_variants() -> (all: Vec<GameVersion>)
        ensures
            all@ == Self::spec_value_variants(),
    {
        let mut all: Vec<GameVersion> = Vec::new();
        all.push(GameVersion::Destiny(DestinyVersion::DestinyInternalAlpha));
        all.push(GameVersion::Destiny(DestinyVersion::DestinyFirstLookAlpha));
        all.push(GameVersion::Destiny(DestinyVersion::DestinyTheTakenKing));
        all.push(GameVersion::Destiny(DestinyVersion::DestinyRiseOfIron));
        all.push(GameVersion::Destiny(DestinyVersion::Destiny2Beta));
        all.push(GameVersion::Destiny(DestinyVersion::Destiny2Forsaken));
        all.push(GameVersion::Destiny(DestinyVersion::Destiny2Shadowkeep));
        all.push(GameVersion::Destiny(DestinyVersion::Destiny2BeyondLight));
        all.push(GameVersion::Destiny(DestinyVersion::Destiny2WitchQueen));
        all.push(GameVersion::Destiny(DestinyVersion::Destiny2Lightfall));
        all.push(GameVersion::Destiny(DestinyVersion::Destiny2TheFinalShape));
        all.push(GameVersion::Marathon(MarathonVersion::MarathonAlpha));
        assert(all@ =~= Self::spec_value_variants());
        all
    }
}

impl Version for GameVersion {
    fn open(&self, path: &str, reader: Vec<u8>, keys: &KeyTable) -> (r: Result<AnyPackage, PkgError>)
        ensures
            self.spec_opened(path@, reader@, keys@, r),
            r is Ok <==> self.spec_can_open(reader@),
    {
        match self {
            GameVersion::Destiny(v) => v.open(path, reader, keys),
            GameVersion::Marathon(v) => v.open(path, reader, keys),
        }
    }

    fn endian(&self) -> (e: Endian)
        ensures
            e == self.spec_endian(),
    {
        match self {
            GameVersion::Destiny(v) => v.endian(),
            GameVersion::Marathon(v) => v.endian(),
        }
    }

    fn name(&self) -> (s: &'static str)
        ensures
            s@ == self.spec_name(),
    {
        match self {
            GameVersion::Destiny(v) => v.name(),
            GameVersion::Marathon(v) => v.name(),
        }
    }

    fn id(&self) -> (s: String)
        ensures
            s@ == self.spec_id(),
    {
        match self {
            GameVersion::Destiny(v) => v.id(),
            GameVersion::Marathon(v) => v.id(),
        }
    }

    fn aes_key_0(&self) -> (key: [u8; 16])
        ensures
            key@ == self.spec_key_0(),
    {
        match self {
            GameVersion::Destiny(v) => v.aes_key_0(),
            GameVersion::Marathon(v) => v.aes_key_0(),
        }
    }

    fn aes_key_1(&self) -> (key: [u8; 16])
        ensures
            key@ == self.spec_key_1(),
    {
        match self {
            GameVersion::Destiny(v) => v.aes_key_1(),
            GameVersion::Marathon(v) => v.aes_key_1(),
        }
    }

    fn aes_nonce_base(&self) -> (nonce: [u8; 12])
        ensures
            nonce@ == self.spec_nonce_base(),
    {
        match self {
            GameVersion::Destiny(v) => v.aes_nonce_base(),
            GameVersion::Marathon(v) => v.aes_nonce_base(),
        }
    }
}

/// No image starts with a valid header of both a big-endian and a
/// little-endian generation: a header that is read in one byte order is
/// refused in the other.
pub proof fn byte_order_is_told_apart(s: Seq<u8>)
    ensures
        crate::d1_internal_alpha::structs::PackageHeader::spec_valid(s) ==> {
            &&& !crate::d1_roi::structs::PackageHeader::spec_valid(s)
            &&& !crate::d2_beta::structs::PackageHeader::spec_valid(s)
            &&& !crate::d2_prebl::structs::PackageHeader::spec_valid(s)
            &&& !crate::d2_beyondlight::structs::PackageHeader::spec_valid(s)
        },
        crate::d1_roi::structs::PackageHeader::spec_valid(s) || crate::d2_beta::structs::PackageHeader::spec_valid(s)
            || crate::d2_prebl::structs::PackageHeader::spec_valid(s)
            || crate::d2_beyondlight::structs::PackageHeader::spec_valid(s)
            ==> !crate::d1_internal_alpha::structs::PackageHeader::spec_valid(s),
{
}

} // verus!
