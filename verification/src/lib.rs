//! An in-memory filesystem core.
//!
//! The crate keeps the whole state of a mounted RAM filesystem in four
//! cross-referenced tables — attribute records, directory-entry records,
//! file bodies, and a monotone inode-number allocator — and offers one
//! handler per filesystem operation (`lookup`, `mkdir`, `create`, `write`,
//! `read`, `rename`, …), each a bounded transformation of those tables that
//! produces exactly one reply value.  The invariants tying the tables
//! together are stated in [`fs::FsModel::wf`] and proved to hold after every
//! handler.  The transport that turns kernel upcalls into calls of these
//! handlers lives outside this crate.

pub mod clock;
pub mod file;
pub mod fs;
pub mod inode;
pub mod laws;
pub mod types;

pub use file::File;
pub use fs::RamFS;
pub use inode::Inode;
