//! End-to-end scenarios, each starting from a fresh mount.
use ramfs::types::FsError;
use ramfs::RamFS;

#[test]
fn create_write_read() {
    let mut fs = RamFS::new();
    let attr = fs.create(1, &"a.txt".to_string(), 0, 0).unwrap();
    assert_eq!(attr.ino, 2);
    assert_eq!(fs.write(2, 0, &[0x68, 0x69]), Ok(2));
    assert_eq!(fs.getattr(2).unwrap().size, 2);
    assert_eq!(fs.read(2, 0, 16).unwrap(), vec![0x68, 0x69]);
}

#[test]
fn zero_fill_hole() {
    let mut fs = RamFS::new();
    let attr = fs.create(1, &"b".to_string(), 0, 0).unwrap();
    assert_eq!(attr.ino, 2);
    assert_eq!(fs.write(2, 3, &[0x41]), Ok(1));
    assert_eq!(fs.read(2, 0, 16).unwrap(), vec![0x00, 0x00, 0x00, 0x41]);
    assert_eq!(fs.getattr(2).unwrap().size, 4);
}

#[test]
fn interior_insertion() {
    let mut fs = RamFS::new();
    let attr = fs.create(1, &"c".to_string(), 0, 0).unwrap();
    assert_eq!(attr.ino, 2);
    assert_eq!(fs.write(2, 0, &[1, 2, 3, 4, 5]), Ok(5));
    assert_eq!(fs.write(2, 3, &[6]), Ok(1));
    assert_eq!(fs.read(2, 0, 16).unwrap(), vec![1, 2, 3, 6, 4, 5]);
    assert_eq!(fs.getattr(2).unwrap().size, 6);
}

#[test]
fn directory_lifecycle() {
    let mut fs = RamFS::new();
    let d = fs.mkdir(1, &"d".to_string(), 0).unwrap();
    assert_eq!(d.ino, 2);
    let f = fs.create(2, &"f".to_string(), 0, 0).unwrap();
    assert_eq!(f.ino, 3);
    assert_eq!(fs.rmdir(1, &"d".to_string()), Err(FsError::NotEmpty));
    assert_eq!(fs.unlink(2, &"f".to_string()), Ok(()));
    assert_eq!(fs.rmdir(1, &"d".to_string()), Ok(()));
    assert_eq!(fs.lookup(1, &"d".to_string()), Err(FsError::NoEnt));
}

#[test]
fn rename_across_directories() {
    let mut fs = RamFS::new();
    assert_eq!(fs.mkdir(1, &"src".to_string(), 0).unwrap().ino, 2);
    assert_eq!(fs.mkdir(1, &"dst".to_string(), 0).unwrap().ino, 3);
    assert_eq!(fs.create(2, &"x".to_string(), 0, 0).unwrap().ino, 4);
    assert_eq!(fs.rename(2, &"x".to_string(), 3, &"y".to_string()), Ok(()));
    assert_eq!(fs.lookup(2, &"x".to_string()), Err(FsError::NoEnt));
    assert_eq!(fs.lookup(3, &"y".to_string()).unwrap().ino, 4);
}

#[test]
fn readdir_resumption() {
    let mut fs = RamFS::new();
    fs.create(1, &"a".to_string(), 0, 0).unwrap();
    fs.create(1, &"b".to_string(), 0, 0).unwrap();
    fs.create(1, &"c".to_string(), 0, 0).unwrap();
    let full = fs.readdir(1, 0).unwrap();
    let names: Vec<&str> = full.iter().map(|e| e.name.as_str()).collect();
    assert_eq!(names, vec![".", "..", "a", "b", "c"]);
    let cookies: Vec<i64> = full.iter().map(|e| e.cookie).collect();
    assert_eq!(cookies, vec![0, 1, 2, 3, 4]);
    let resumed = fs.readdir(1, 3).unwrap();
    assert_eq!(resumed.len(), 1);
    assert_eq!(resumed[0].name, "c");
    assert_eq!(resumed[0].cookie, 4);
}
