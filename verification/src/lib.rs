//! Reader for the package archives of a family of game titles: tags, header
//! and table layouts of each generation, block decryption, entry
//! reconstruction, and the fleet-wide index over a directory of archives.
//!
//! Files are handed to the library as byte images, the block codec as a
//! function; the library itself neither reads files nor loads code.

pub mod block;
pub mod block_cache;
pub mod bytes;
pub mod crypto;
pub mod d1_internal_alpha;
pub mod d1_legacy;
pub mod d1_roi;
pub mod d1_shared;
pub mod d2_beta;
pub mod d2_beyondlight;
pub mod d2_prebl;
pub mod d2_shared;
pub mod d2_witchqueen;
pub mod dispatch;
pub mod error;
pub mod manager;
pub mod oodle;
pub mod package;
pub mod structs;
pub mod table;
pub mod tag;
pub mod text;
pub mod version;

pub use bytes::Endian;
pub use crypto::register_pkg_key;
pub use d2_prebl::PackageD2PreBL;
pub use d2_shared::PackageNamedTagEntry;
pub use error::PkgError;
pub use manager::PackageManager;
pub use package::{Package, PackageLanguage, PackagePlatform};
pub use tag::{TagHash, TagHash64};
pub use version::{DestinyVersion, GameVersion, Version};
