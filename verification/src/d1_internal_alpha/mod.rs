//! The archives of the internal alpha of the first title.

pub mod reader;
pub mod structs;

pub use reader::PackageD1InternalAlpha;
