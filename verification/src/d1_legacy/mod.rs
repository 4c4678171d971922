//! The archives of The Taken King, of which only the reading of blocks is
//! known: the layout of the header and the tables is not.

pub mod reader;

pub use reader::PackageD1Legacy;
