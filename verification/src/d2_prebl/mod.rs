//! The archives of the second title from its release up to Beyond Light.

pub mod reader;
pub mod structs;

pub use reader::PackageD2PreBL;
