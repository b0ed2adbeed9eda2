//! The file-body primitives on their own: the three cases of the edit
//! primitive, the truncate primitive, and reading a suffix.
use ramfs::{File, Inode};

#[test]
fn new_file_is_empty() {
    let f = File::new_file();
    assert_eq!(f.get_file_size(), 0);
    assert_eq!(f.read_from(0), Vec::<u8>::new());
}

#[test]
fn update_appends_past_end_with_zero_fill() {
    let mut f = File::new_file();
    assert_eq!(f.update_file(0, &[1, 2]), 2);
    assert_eq!(f.update_file(5, &[9]), 1);
    assert_eq!(f.read_from(0), vec![1, 2, 0, 0, 0, 9]);
    assert_eq!(f.get_file_size(), 6);
}

#[test]
fn update_overwrites_suffix_when_payload_passes_end() {
    let mut f = File::new_file();
    f.update_file(0, &[1, 2, 3]);
    assert_eq!(f.update_file(2, &[7, 8]), 2);
    assert_eq!(f.read_from(0), vec![1, 2, 7, 8]);
}

#[test]
fn update_inserts_interior_payload() {
    let mut f = File::new_file();
    f.update_file(0, &[1, 2, 3, 4, 5]);
    assert_eq!(f.update_file(3, &[6]), 1);
    assert_eq!(f.read_from(0), vec![1, 2, 3, 6, 4, 5]);
    assert_eq!(f.get_file_size(), 6);
}

#[test]
fn update_at_exact_end_appends() {
    let mut f = File::new_file();
    f.update_file(0, &[1]);
    assert_eq!(f.update_file(1, &[2]), 1);
    assert_eq!(f.read_from(0), vec![1, 2]);
}

#[test]
fn truncate_shrinks_and_never_grows() {
    let mut f = File::new_file();
    f.update_file(0, &[1, 2, 3, 4]);
    f.truncate_bytes(2);
    assert_eq!(f.read_from(0), vec![1, 2]);
    f.truncate_bytes(10);
    assert_eq!(f.read_from(0), vec![1, 2]);
    f.truncate_bytes(0);
    assert_eq!(f.get_file_size(), 0);
}

#[test]
fn read_from_clamps_to_end() {
    let mut f = File::new_file();
    f.update_file(0, &[1, 2, 3]);
    assert_eq!(f.read_from(1), vec![2, 3]);
    assert_eq!(f.read_from(3), Vec::<u8>::new());
    assert_eq!(f.read_from(9), Vec::<u8>::new());
}

#[test]
fn inode_child_entries() {
    let mut node = Inode::new_inode("d".to_string(), 1);
    assert_eq!(node.parent_ino(), 1);
    assert_eq!(node.child_count(), 0);
    node.insert_child("a".to_string(), 2);
    node.insert_child("b".to_string(), 3);
    assert_eq!(node.child(&"a".to_string()), Some(2));
    assert_eq!(node.child(&"b".to_string()), Some(3));
    assert_eq!(node.child(&"c".to_string()), None);
    assert_eq!(node.entry_at(0), ("a".to_string(), 2));
    assert_eq!(node.entry_at(1), ("b".to_string(), 3));
    assert_eq!(node.remove_child(&"a".to_string()), Some(2));
    assert_eq!(node.remove_child(&"a".to_string()), None);
    assert_eq!(node.child_count(), 1);
    node.relabel("e".to_string(), 7);
    assert_eq!(node.parent_ino(), 7);
}
