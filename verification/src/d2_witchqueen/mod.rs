//! The archives of Witch Queen as they were first read: for one platform,
//! without alias table and named tags.

pub mod reader;
pub mod structs;

pub use reader::PackageD2WitchQueen;
