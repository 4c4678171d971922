//! The archives of the beta of the second title.

pub mod reader;
pub mod structs;

pub use reader::PackageD2Beta;
