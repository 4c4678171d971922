//! The archives of the last generation of the first title, and of its First
//! Look Alpha.

pub mod reader;
pub mod structs;

pub use reader::PackageD1RiseOfIron;
