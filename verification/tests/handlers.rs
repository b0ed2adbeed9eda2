//! Per-handler behaviors: each error on an input that provokes it, the
//! invariant-flavored properties on concrete values, and the boundary
//! cases.
use ramfs::types::{FileType, FsError, Timespec};
use ramfs::RamFS;

#[test]
fn getattr_unknown_inode() {
    let fs = RamFS::new();
    assert_eq!(fs.getattr(99), Err(FsError::NoEnt));
}

#[test]
fn getattr_root() {
    let fs = RamFS::new();
    let root = fs.getattr(1).unwrap();
    assert_eq!(root.ino, 1);
    assert_eq!(root.kind, FileType::Directory);
    assert_eq!(root.perm, 0o755);
}

#[test]
fn lookup_missing_name_and_parent() {
    let fs = RamFS::new();
    assert_eq!(fs.lookup(1, &"nope".to_string()), Err(FsError::NoEnt));
    assert_eq!(fs.lookup(99, &"x".to_string()), Err(FsError::NoEnt));
}

#[test]
fn lookup_after_create_matches_reply() {
    let mut fs = RamFS::new();
    let created = fs.create(1, &"f".to_string(), 0, 0).unwrap();
    let looked_up = fs.lookup(1, &"f".to_string()).unwrap();
    assert_eq!(looked_up, created);
    assert_eq!(looked_up.ino, created.ino);
}

#[test]
fn mkdir_existing_name_and_unknown_parent() {
    let mut fs = RamFS::new();
    fs.mkdir(1, &"d".to_string(), 0).unwrap();
    assert_eq!(fs.mkdir(1, &"d".to_string(), 0), Err(FsError::Exist));
    assert_eq!(fs.mkdir(99, &"e".to_string(), 0), Err(FsError::Inval));
}

#[test]
fn mkdir_attr_defaults() {
    let mut fs = RamFS::new();
    let d = fs.mkdir(1, &"d".to_string(), 0).unwrap();
    assert_eq!(d.ino, 2);
    assert_eq!(d.kind, FileType::Directory);
    assert_eq!(d.perm, 0o644);
    assert_eq!(d.size, 0);
    assert_eq!(d.nlink, 0);
    assert_eq!(d.uid, 0);
    assert_eq!(d.atime, d.mtime);
    assert_eq!(d.ctime, d.crtime);
}

#[test]
fn create_attr_defaults() {
    let mut fs = RamFS::new();
    let f = fs.create(1, &"f".to_string(), 0, 0).unwrap();
    assert_eq!(f.kind, FileType::RegularFile);
    assert_eq!(f.perm, 0o755);
    assert_eq!(f.size, 0);
}

#[test]
fn create_unknown_parent() {
    let mut fs = RamFS::new();
    assert_eq!(fs.create(99, &"f".to_string(), 0, 0), Err(FsError::Inval));
}

#[test]
fn create_is_idempotent() {
    let mut fs = RamFS::new();
    let first = fs.create(1, &"f".to_string(), 0, 0).unwrap();
    let second = fs.create(1, &"f".to_string(), 0, 0).unwrap();
    assert_eq!(second, first);
    // No inode number was burned by the repeated create.
    let next = fs.create(1, &"g".to_string(), 0, 0).unwrap();
    assert_eq!(next.ino, first.ino + 1);
}

#[test]
fn allocator_strictly_increasing() {
    let mut fs = RamFS::new();
    let a = fs.create(1, &"a".to_string(), 0, 0).unwrap().ino;
    let b = fs.mkdir(1, &"b".to_string(), 0).unwrap().ino;
    let c = fs.create(b, &"c".to_string(), 0, 0).unwrap().ino;
    assert_eq!((a, b, c), (2, 3, 4));
    assert!(a < b && b < c);
}

#[test]
fn children_keep_attribute_records() {
    let mut fs = RamFS::new();
    let d = fs.mkdir(1, &"d".to_string(), 0).unwrap().ino;
    let f = fs.create(d, &"f".to_string(), 0, 0).unwrap().ino;
    for entry in fs.readdir(d, 0).unwrap() {
        assert!(fs.getattr(entry.ino).is_ok());
    }
    assert_eq!(fs.lookup(d, &"f".to_string()).unwrap().ino, f);
}

#[test]
fn rmdir_errors() {
    let mut fs = RamFS::new();
    assert_eq!(fs.rmdir(1, &"missing".to_string()), Err(FsError::NoEnt));
    assert_eq!(fs.rmdir(99, &"d".to_string()), Err(FsError::NoEnt));
    let d = fs.mkdir(1, &"d".to_string(), 0).unwrap().ino;
    fs.create(d, &"f".to_string(), 0, 0).unwrap();
    assert_eq!(fs.rmdir(1, &"d".to_string()), Err(FsError::NotEmpty));
    // The failed rmdir left the directory and its contents alone.
    assert!(fs.lookup(1, &"d".to_string()).is_ok());
    assert!(fs.lookup(d, &"f".to_string()).is_ok());
    // rmdir aimed at a regular file reports a missing entity.
    fs.create(1, &"plain".to_string(), 0, 0).unwrap();
    assert_eq!(fs.rmdir(1, &"plain".to_string()), Err(FsError::NoEnt));
}

#[test]
fn unlink_errors_and_removal() {
    let mut fs = RamFS::new();
    assert_eq!(fs.unlink(1, &"missing".to_string()), Err(FsError::NoEnt));
    assert_eq!(fs.unlink(99, &"f".to_string()), Err(FsError::NoEnt));
    let f = fs.create(1, &"f".to_string(), 0, 0).unwrap().ino;
    assert_eq!(fs.unlink(1, &"f".to_string()), Ok(()));
    assert_eq!(fs.getattr(f), Err(FsError::NoEnt));
    assert_eq!(fs.lookup(1, &"f".to_string()), Err(FsError::NoEnt));
}

#[test]
fn write_and_read_unknown_inode() {
    let mut fs = RamFS::new();
    assert_eq!(fs.write(99, 0, &[1]), Err(FsError::NoEnt));
    assert_eq!(fs.read(99, 0, 8), Err(FsError::NoEnt));
    // A directory has no file body.
    let d = fs.mkdir(1, &"d".to_string(), 0).unwrap().ino;
    assert_eq!(fs.write(d, 0, &[1]), Err(FsError::NoEnt));
    assert_eq!(fs.read(d, 0, 8), Err(FsError::NoEnt));
}

#[test]
fn write_keeps_size_equal_to_body() {
    let mut fs = RamFS::new();
    let f = fs.create(1, &"f".to_string(), 0, 0).unwrap().ino;
    fs.write(f, 0, &[1, 2, 3]).unwrap();
    assert_eq!(fs.getattr(f).unwrap().size, 3);
    fs.write(f, 1, &[9]).unwrap();
    let size = fs.getattr(f).unwrap().size;
    let body = fs.read(f, 0, 64).unwrap();
    assert_eq!(size as usize, body.len());
    assert_eq!(body, vec![1, 9, 2, 3]);
}

#[test]
fn write_returns_payload_length_not_total() {
    let mut fs = RamFS::new();
    let f = fs.create(1, &"f".to_string(), 0, 0).unwrap().ino;
    fs.write(f, 0, &[7, 7, 7, 7]).unwrap();
    assert_eq!(fs.write(f, 4, &[8]), Ok(1));
}

#[test]
fn read_at_or_past_end_is_empty() {
    let mut fs = RamFS::new();
    let f = fs.create(1, &"f".to_string(), 0, 0).unwrap().ino;
    fs.write(f, 0, &[1, 2]).unwrap();
    assert_eq!(fs.read(f, 2, 8).unwrap(), Vec::<u8>::new());
    assert_eq!(fs.read(f, 5, 8).unwrap(), Vec::<u8>::new());
}

#[test]
fn overwrite_roundtrip_on_empty_body() {
    let mut fs = RamFS::new();
    let f = fs.create(1, &"f".to_string(), 0, 0).unwrap().ino;
    fs.write(f, 0, &[10, 20, 30]).unwrap();
    assert_eq!(fs.read(f, 0, 3).unwrap(), vec![10, 20, 30]);
}

#[test]
fn setattr_unknown_inode() {
    let mut fs = RamFS::new();
    assert_eq!(
        fs.setattr(99, None, None, None, None, None, None, None),
        Err(FsError::NoEnt)
    );
}

#[test]
fn setattr_applies_fields() {
    let mut fs = RamFS::new();
    let f = fs.create(1, &"f".to_string(), 0, 0).unwrap().ino;
    let stamp = Timespec { sec: 7, nsec: 9 };
    let updated = fs
        .setattr(
            f,
            Some(0o40644),
            Some(10),
            Some(20),
            None,
            Some(stamp),
            Some(stamp),
            Some(stamp),
        )
        .unwrap();
    assert_eq!(updated.perm, 0o644);
    assert_eq!(updated.uid, 10);
    assert_eq!(updated.gid, 20);
    assert_eq!(updated.atime, stamp);
    assert_eq!(updated.mtime, stamp);
    assert_eq!(updated.crtime, stamp);
    assert_eq!(fs.getattr(f).unwrap(), updated);
}

#[test]
fn setattr_truncate_to_zero_then_read_empty() {
    let mut fs = RamFS::new();
    let f = fs.create(1, &"f".to_string(), 0, 0).unwrap().ino;
    fs.write(f, 0, &[1, 2, 3, 4]).unwrap();
    let updated = fs
        .setattr(f, None, None, None, Some(0), None, None, None)
        .unwrap();
    assert_eq!(updated.size, 0);
    assert_eq!(fs.getattr(f).unwrap().size, 0);
    assert_eq!(fs.read(f, 0, 16).unwrap(), Vec::<u8>::new());
}

#[test]
fn setattr_truncate_shrinks() {
    let mut fs = RamFS::new();
    let f = fs.create(1, &"f".to_string(), 0, 0).unwrap().ino;
    fs.write(f, 0, &[1, 2, 3, 4]).unwrap();
    let updated = fs
        .setattr(f, None, None, None, Some(2), None, None, None)
        .unwrap();
    assert_eq!(updated.size, 2);
    assert_eq!(fs.read(f, 0, 16).unwrap(), vec![1, 2]);
    // Truncating past the end does not grow the body, and the stored size
    // stays the body's length.
    let grown = fs
        .setattr(f, None, None, None, Some(100), None, None, None)
        .unwrap();
    assert_eq!(grown.size, 2);
    assert_eq!(fs.read(f, 0, 16).unwrap(), vec![1, 2]);
}

#[test]
fn rename_errors() {
    let mut fs = RamFS::new();
    assert_eq!(
        fs.rename(99, &"x".to_string(), 1, &"y".to_string()),
        Err(FsError::Inval)
    );
    assert_eq!(
        fs.rename(1, &"x".to_string(), 99, &"y".to_string()),
        Err(FsError::Inval)
    );
    assert_eq!(
        fs.rename(1, &"missing".to_string(), 1, &"y".to_string()),
        Err(FsError::NoEnt)
    );
}

#[test]
fn rename_onto_itself_is_a_no_op() {
    let mut fs = RamFS::new();
    fs.create(1, &"a".to_string(), 0, 0).unwrap();
    fs.create(1, &"b".to_string(), 0, 0).unwrap();
    let before: Vec<(u64, String)> = fs
        .readdir(1, 0)
        .unwrap()
        .into_iter()
        .map(|e| (e.ino, e.name))
        .collect();
    assert_eq!(fs.rename(1, &"a".to_string(), 1, &"a".to_string()), Ok(()));
    let after: Vec<(u64, String)> = fs
        .readdir(1, 0)
        .unwrap()
        .into_iter()
        .map(|e| (e.ino, e.name))
        .collect();
    assert_eq!(after, before);
}

#[test]
fn rename_overwrites_destination_entry() {
    let mut fs = RamFS::new();
    let a = fs.create(1, &"a".to_string(), 0, 0).unwrap().ino;
    fs.create(1, &"b".to_string(), 0, 0).unwrap();
    assert_eq!(fs.rename(1, &"a".to_string(), 1, &"b".to_string()), Ok(()));
    assert_eq!(fs.lookup(1, &"a".to_string()), Err(FsError::NoEnt));
    assert_eq!(fs.lookup(1, &"b".to_string()).unwrap().ino, a);
}

#[test]
fn readdir_errors() {
    let fs = RamFS::new();
    assert_eq!(fs.readdir(99, 0), Err(FsError::NoEnt));
    let mut fs = RamFS::new();
    let f = fs.create(1, &"f".to_string(), 0, 0).unwrap().ino;
    assert_eq!(fs.readdir(f, 0), Err(FsError::NoEnt));
}

#[test]
fn readdir_lists_dot_dotdot_then_children() {
    let mut fs = RamFS::new();
    let d = fs.mkdir(1, &"d".to_string(), 0).unwrap().ino;
    fs.create(d, &"f".to_string(), 0, 0).unwrap();
    let entries = fs.readdir(d, 0).unwrap();
    assert_eq!(entries.len(), 3);
    assert_eq!(entries[0].name, ".");
    assert_eq!(entries[0].ino, d);
    assert_eq!(entries[0].kind, FileType::Directory);
    assert_eq!(entries[1].name, "..");
    assert_eq!(entries[1].ino, 1);
    assert_eq!(entries[2].name, "f");
    assert_eq!(entries[2].kind, FileType::RegularFile);
    // Stable between mutations: a second enumeration is identical.
    let again = fs.readdir(d, 0).unwrap();
    let pairs: Vec<(u64, String)> = entries.into_iter().map(|e| (e.ino, e.name)).collect();
    let pairs_again: Vec<(u64, String)> = again.into_iter().map(|e| (e.ino, e.name)).collect();
    assert_eq!(pairs, pairs_again);
}

#[test]
fn readdir_offset_past_end_is_empty() {
    let fs = RamFS::new();
    assert_eq!(fs.readdir(1, 5).unwrap().len(), 0);
}

#[test]
fn open_always_succeeds() {
    let fs = RamFS::new();
    assert_eq!(fs.open(1, 0), (0, 0));
    assert_eq!(fs.open(99, 123), (0, 0));
}

#[test]
fn rename_updates_dotdot_of_moved_directory() {
    let mut fs = RamFS::new();
    let src = fs.mkdir(1, &"src".to_string(), 0).unwrap().ino;
    let dst = fs.mkdir(1, &"dst".to_string(), 0).unwrap().ino;
    let sub = fs.mkdir(src, &"sub".to_string(), 0).unwrap().ino;
    assert_eq!(fs.rename(src, &"sub".to_string(), dst, &"sub".to_string()), Ok(()));
    let entries = fs.readdir(sub, 0).unwrap();
    assert_eq!(entries[1].name, "..");
    assert_eq!(entries[1].ino, dst);
}
