//! Owned, read-only views of a column family's on-disk structure.
//!
//! A [`ColumnFamilyMetaData`] owns a snapshot of the levels of a column
//! family and of the table files in each level. Level and file views are
//! handed out as borrows of that root, so none of them can outlive it, and
//! dropping the root frees the whole tree at once.
pub mod keys;
pub mod metadata;
pub mod name;

pub use metadata::{ColumnFamilyMetaData, LevelMetaData, SstFileMetaData, SstFileModel};
