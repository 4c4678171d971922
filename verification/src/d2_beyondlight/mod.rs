//! The archives of the second title from Beyond Light on.

pub mod reader;
pub mod structs;

pub use reader::PackageD2BeyondLight;
