//! Plain data carried through the filesystem tables: timestamps, attribute
//! records, directory-listing entries and the error codes handlers reply with.
use vstd::prelude::*;

verus! {

/// The errors a handler can reply with, mirroring the POSIX codes the
/// kernel expects (ENOENT, EEXIST, ENOTEMPTY, EINVAL).
#[derive(Clone, Copy, Debug, PartialEq, Eq, Structural)]
pub enum FsError {
    /// No such inode, name, or attribute record.
    NoEnt,
    /// `mkdir` of an existing name.
    Exist,
    /// `rmdir` of a non-empty directory.
    NotEmpty,
    /// Unknown parent in a creation-style operation.
    Inval,
}

/// The two kinds of filesystem object the core supports.
#[derive(Clone, Copy, Debug, PartialEq, Eq, Structural)]
pub enum FileType {
    Directory,
    RegularFile,
}

/// A wall-clock instant, as seconds since the epoch plus a nanosecond offset.
#[derive(Clone, Copy, Debug, PartialEq, Eq, Structural)]
pub struct Timespec {
    pub sec: i64,
    pub nsec: i32,
}

/// The attribute record kept for every live inode and returned by the
/// stat-family handlers.
#[derive(Clone, Copy, Debug, PartialEq, Eq, Structural)]
pub struct FileAttr {
    pub ino: u64,
    pub size: u64,
    pub blocks: u64,
    pub atime: Timespec,
    pub mtime: Timespec,
    pub ctime: Timespec,
    pub crtime: Timespec,
    pub kind: FileType,
    pub perm: u16,
    pub nlink: u32,
    pub uid: u32,
    pub gid: u32,
    pub rdev: u32,
    pub flags: u32,
}

/// The attribute record a freshly created directory gets: all timestamps at
/// `ts`, mode 0o644, every owner field zero.
pub open spec fn dir_attr(ino: u64, ts: Timespec) -> FileAttr {
    FileAttr {
        ino,
        size: 0,
        blocks: 0,
        atime: ts,
        mtime: ts,
        ctime: ts,
        crtime: ts,
        kind: FileType::Directory,
        perm: 0o644,
        nlink: 0,
        uid: 0,
        gid: 0,
        rdev: 0,
        flags: 0,
    }
}

/// The attribute record a freshly created regular file gets: all timestamps
/// at `ts`, mode 0o755, size zero, every owner field zero.
pub open spec fn file_attr(ino: u64, ts: Timespec) -> FileAttr {
    FileAttr {
        ino,
        size: 0,
        blocks: 0,
        atime: ts,
        mtime: ts,
        ctime: ts,
        crtime: ts,
        kind: FileType::RegularFile,
        perm: 0o755,
        nlink: 0,
        uid: 0,
        gid: 0,
        rdev: 0,
        flags: 0,
    }
}

/// The attribute record of the root directory at mount time: inode 1,
/// mode 0o755.
pub open spec fn root_attr(ts: Timespec) -> FileAttr {
    FileAttr {
        ino: 1,
        size: 0,
        blocks: 0,
        atime: ts,
        mtime: ts,
        ctime: ts,
        crtime: ts,
        kind: FileType::Directory,
        perm: 0o755,
        nlink: 0,
        uid: 0,
        gid: 0,
        rdev: 0,
        flags: 0,
    }
}

/// One entry of a directory listing, carrying the cookie at which a later
/// `readdir` call can resume.
#[derive(Debug, PartialEq, Eq)]
pub struct DirEntry {
    pub ino: u64,
    pub cookie: i64,
    pub kind: FileType,
    pub name: String,
}

/// The mathematical content of a [`DirEntry`]: the same fields with the name
/// as a character sequence.
#[verifier::ext_equal]
pub ghost struct DirEntryModel {
    pub ino: u64,
    pub cookie: i64,
    pub kind: FileType,
    pub name: Seq<char>,
}

impl View for DirEntry {
    type V = DirEntryModel;

    open spec fn view(&self) -> DirEntryModel {
        DirEntryModel { ino: self.ino, cookie: self.cookie, kind: self.kind, name: self.name@ }
    }
}

} // verus!
