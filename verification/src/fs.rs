//! The filesystem state: four cross-referenced tables and one handler per
//! operation, each proved to preserve the invariants tying the tables
//! together.
use crate::clock::now_timespec;
use crate::file::{spec_read_from, spec_truncate, spec_update, File};
use crate::inode::{lemma_index_of, lemma_with_entry, lemma_without, Inode, NodeModel};
use crate::types::{
    dir_attr, file_attr, root_attr, DirEntry, DirEntryModel, FileAttr, FileType, FsError,
    Timespec,
};
use vstd::hash_map::HashMapWithView;
use vstd::prelude::*;

verus! {

broadcast use vstd::std_specs::hash::group_hash_axioms;

/// The mathematical content of a [`RamFS`]: the attribute table, the file
/// bodies, the directory-entry records, and the next inode number the
/// allocator will hand out.
#[verifier::ext_equal]
pub ghost struct FsModel {
    pub attrs: Map<u64, FileAttr>,
    pub bodies: Map<u64, Seq<u8>>,
    pub nodes: Map<u64, NodeModel>,
    pub next_ino: u64,
}

impl FsModel {
    /// The invariants that hold before and after every handler.
    ///
    /// - every live inode has both an attribute record and a
    ///   directory-entry record, and carries its own number;
    /// - an inode has a file body exactly when its attribute record says it
    ///   is a regular file, and the recorded size equals the body's length;
    /// - child names are unique within a directory, every child is a live
    ///   non-root inode, and its record points back at the one directory
    ///   and name under which it appears (so no inode is a child twice);
    /// - inode 1 is a live directory and is its own parent;
    /// - the allocator's next value strictly exceeds every live inode.
    pub open spec fn wf(self) -> bool {
        &&& forall|k: u64| #[trigger] self.nodes.contains_key(k) ==> self.attrs.contains_key(k)
        &&& forall|k: u64| #[trigger] self.attrs.contains_key(k) ==> self.nodes.contains_key(k)
        &&& forall|k: u64| #[trigger] self.bodies.contains_key(k) ==> self.attrs.contains_key(k)
        &&& forall|k: u64|
            self.attrs.contains_key(k) ==> ((#[trigger] self.attrs[k]).kind
                == FileType::RegularFile <==> self.bodies.contains_key(k))
        &&& forall|k: u64| #[trigger] self.attrs.contains_key(k) ==> self.attrs[k].ino == k
        &&& forall|k: u64|
            #[trigger] self.bodies.contains_key(k) ==> self.attrs[k].size == self.bodies[k].len()
        &&& forall|k: u64| #[trigger] self.nodes.contains_key(k) ==> self.nodes[k].names_unique()
        &&& forall|d: u64, n: Seq<char>|
            self.nodes.contains_key(d) && #[trigger] self.nodes[d].has_name(n) ==> {
                let c = self.nodes[d].ino_of(n);
                &&& self.attrs.contains_key(c)
                &&& c != 1
                &&& self.nodes.contains_key(c)
                &&& self.nodes[c].parent == d
                &&& self.nodes[c].name == n
            }
        &&& self.attrs.contains_key(1)
        &&& self.attrs[1].kind == FileType::Directory
        &&& self.nodes.contains_key(1)
        &&& self.nodes[1].parent == 1
        &&& forall|k: u64| #[trigger] self.attrs.contains_key(k) ==> 1 <= k < self.next_ino
        &&& 2 <= self.next_ino
    }
}

/// What `getattr` replies: the attribute record of `ino`, or ENOENT.
pub open spec fn spec_getattr(m: FsModel, ino: u64) -> Result<FileAttr, FsError> {
    if m.attrs.contains_key(ino) {
        Ok(m.attrs[ino])
    } else {
        Err(FsError::NoEnt)
    }
}

/// What `lookup` replies: the attribute record of the child of `parent`
/// named `name`, or ENOENT when the parent, the name, or the child's
/// attribute record is missing.
pub open spec fn spec_lookup(m: FsModel, parent: u64, name: Seq<char>) -> Result<
    FileAttr,
    FsError,
> {
    if !m.nodes.contains_key(parent) {
        Err(FsError::NoEnt)
    } else if !m.nodes[parent].has_name(name) {
        Err(FsError::NoEnt)
    } else if !m.attrs.contains_key(m.nodes[parent].ino_of(name)) {
        Err(FsError::NoEnt)
    } else {
        Ok(m.attrs[m.nodes[parent].ino_of(name)])
    }
}

/// The full listing of directory `ino`: the synthetic entries `.` (the
/// directory itself) and `..` (its parent) first, then every child in
/// listing order, each entry carrying its sequential index as its cookie.
pub open spec fn spec_readdir_full(m: FsModel, ino: u64) -> Seq<DirEntryModel> {
    let node = m.nodes[ino];
    Seq::new(
        node.entries.len() + 2,
        |i: int|
            if i == 0 {
                DirEntryModel { ino, cookie: 0, kind: FileType::Directory, name: seq!['.'] }
            } else if i == 1 {
                DirEntryModel {
                    ino: node.parent,
                    cookie: 1,
                    kind: FileType::Directory,
                    name: seq!['.', '.'],
                }
            } else {
                DirEntryModel {
                    ino: node.entries[i - 2].1,
                    cookie: i as i64,
                    kind: m.attrs[node.entries[i - 2].1].kind,
                    name: node.entries[i - 2].0,
                }
            },
    )
}

/// What `readdir` replies: ENOENT when `ino` is unknown or not a
/// directory; otherwise the full listing with the first `offset + 1`
/// entries skipped when `offset` is non-zero (the caller has already seen
/// the entry at cookie `offset`), or nothing once the offset is past the
/// listing.
pub open spec fn spec_readdir(m: FsModel, ino: u64, offset: i64) -> Result<
    Seq<DirEntryModel>,
    FsError,
> {
    if !m.nodes.contains_key(ino) || m.attrs[ino].kind != FileType::Directory {
        Err(FsError::NoEnt)
    } else {
        let full = spec_readdir_full(m, ino);
        let skip = if offset == 0 { 0int } else { offset + 1 };
        if skip <= full.len() {
            Ok(full.skip(skip))
        } else {
            Ok(Seq::empty())
        }
    }
}

/// The state after `mkdir(parent, name)` succeeds at time `ts`: a fresh
/// directory inode with an empty children set, entered under `parent`.
pub open spec fn mkdir_model(m: FsModel, parent: u64, name: Seq<char>, ts: Timespec) -> FsModel {
    let ino = m.next_ino;
    FsModel {
        attrs: m.attrs.insert(ino, dir_attr(ino, ts)),
        bodies: m.bodies,
        nodes: m.nodes.insert(parent, m.nodes[parent].with_entry(name, ino)).insert(
            ino,
            NodeModel { name, parent, entries: Seq::empty() },
        ),
        next_ino: (m.next_ino + 1) as u64,
    }
}

/// The state after `create(parent, name)` allocates a fresh regular file at
/// time `ts`: a new attribute record, an empty body, and a directory-entry
/// record entered under `parent`.
pub open spec fn create_model(m: FsModel, parent: u64, name: Seq<char>, ts: Timespec) -> FsModel {
    let ino = m.next_ino;
    FsModel {
        attrs: m.attrs.insert(ino, file_attr(ino, ts)),
        bodies: m.bodies.insert(ino, Seq::empty()),
        nodes: m.nodes.insert(parent, m.nodes[parent].with_entry(name, ino)).insert(
            ino,
            NodeModel { name, parent, entries: Seq::empty() },
        ),
        next_ino: (m.next_ino + 1) as u64,
    }
}

/// An attribute record with every provided `setattr` field applied: the
/// mode is stored masked to its nine permission bits; owner ids and
/// timestamps replace the stored ones; everything else is untouched.
pub open spec fn attr_applied(
    a: FileAttr,
    mode: Option<u32>,
    uid: Option<u32>,
    gid: Option<u32>,
    atime: Option<Timespec>,
    mtime: Option<Timespec>,
    crtime: Option<Timespec>,
) -> FileAttr {
    FileAttr {
        perm: match mode {
            Some(mo) => (mo & 0o777) as u16,
            None => a.perm,
        },
        uid: match uid {
            Some(u) => u,
            None => a.uid,
        },
        gid: match gid {
            Some(g) => g,
            None => a.gid,
        },
        atime: match atime {
            Some(t) => t,
            None => a.atime,
        },
        mtime: match mtime {
            Some(t) => t,
            None => a.mtime,
        },
        crtime: match crtime {
            Some(t) => t,
            None => a.crtime,
        },
        ..a
    }
}

/// The state after `setattr` succeeds on a live inode: the provided fields
/// applied and, when a size is given for an inode that has a file body, the
/// body truncated and the stored size set to the body's resulting length.
pub open spec fn setattr_model(
    m: FsModel,
    ino: u64,
    mode: Option<u32>,
    uid: Option<u32>,
    gid: Option<u32>,
    size: Option<u64>,
    atime: Option<Timespec>,
    mtime: Option<Timespec>,
    crtime: Option<Timespec>,
) -> FsModel {
    let base = attr_applied(m.attrs[ino], mode, uid, gid, atime, mtime, crtime);
    if m.bodies.contains_key(ino) && size is Some {
        let b2 = spec_truncate(m.bodies[ino], size.unwrap() as int);
        FsModel {
            attrs: m.attrs.insert(ino, FileAttr { size: b2.len() as u64, ..base }),
            bodies: m.bodies.insert(ino, b2),
            nodes: m.nodes,
            next_ino: m.next_ino,
        }
    } else {
        FsModel {
            attrs: m.attrs.insert(ino, base),
            bodies: m.bodies,
            nodes: m.nodes,
            next_ino: m.next_ino,
        }
    }
}

/// The state after `write` succeeds at time `ts`: the edit primitive
/// applied to the body, the stored size set to the body's new length, and
/// both `atime` and `mtime` stamped `ts`.
pub open spec fn write_model(m: FsModel, ino: u64, off: int, data: Seq<u8>, ts: Timespec) -> FsModel {
    let b2 = spec_update(m.bodies[ino], off, data);
    FsModel {
        attrs: m.attrs.insert(
            ino,
            FileAttr { size: b2.len() as u64, atime: ts, mtime: ts, ..m.attrs[ino] },
        ),
        bodies: m.bodies.insert(ino, b2),
        nodes: m.nodes,
        next_ino: m.next_ino,
    }
}

/// The state after the child of `parent` named `name` is removed: its
/// attribute record, its body (if any) and its directory-entry record all
/// go, in one step with the child entry itself.
pub open spec fn remove_entry_model(m: FsModel, parent: u64, name: Seq<char>) -> FsModel {
    let c = m.nodes[parent].ino_of(name);
    FsModel {
        attrs: m.attrs.remove(c),
        bodies: m.bodies.remove(c),
        nodes: m.nodes.insert(parent, m.nodes[parent].without(name)).remove(c),
        next_ino: m.next_ino,
    }
}

/// Removing a child entry together with the child's records preserves the
/// filesystem invariants.
proof fn lemma_remove_entry_wf(m: FsModel, parent: u64, name: Seq<char>)
    requires
        m.wf(),
        m.nodes.contains_key(parent),
        m.nodes[parent].has_name(name),
    ensures
        remove_entry_model(m, parent, name).wf(),
{
    let c = m.nodes[parent].ino_of(name);
    let post = remove_entry_model(m, parent, name);
    lemma_without(m.nodes[parent], name);
    assert forall|d: u64, n: Seq<char>|
        post.nodes.contains_key(d) && #[trigger] post.nodes[d].has_name(n) implies {
        let x = post.nodes[d].ino_of(n);
        &&& post.attrs.contains_key(x)
        &&& x != 1
        &&& post.nodes.contains_key(x)
        &&& post.nodes[x].parent == d
        &&& post.nodes[x].name == n
    } by {
        let x = post.nodes[d].ino_of(n);
        if d == parent {
            assert(n != name && m.nodes[parent].has_name(n));
            assert(x == m.nodes[parent].ino_of(n));
        } else {
            assert(m.nodes[d].has_name(n));
            assert(x == m.nodes[d].ino_of(n));
        }
        assert(m.attrs.contains_key(x));
        if x == c {
            assert(m.nodes[c].parent == parent && m.nodes[c].name == name);
            assert(d == parent && n == name);
            assert(false);
        }
    }
    assert(post.wf());
}

/// Entering a fresh inode (directory or regular file) under an existing
/// parent preserves the filesystem invariants.
proof fn lemma_creation_wf(m: FsModel, parent: u64, name: Seq<char>, ts: Timespec, is_dir: bool)
    requires
        m.wf(),
        m.nodes.contains_key(parent),
        !m.nodes[parent].has_name(name),
        m.next_ino < u64::MAX,
    ensures
        is_dir ==> mkdir_model(m, parent, name, ts).wf(),
        !is_dir ==> create_model(m, parent, name, ts).wf(),
{
    let ino = m.next_ino;
    let post = if is_dir {
        mkdir_model(m, parent, name, ts)
    } else {
        create_model(m, parent, name, ts)
    };
    lemma_with_entry(m.nodes[parent], name, ino);
    assert(!m.attrs.contains_key(ino));
    assert(!m.bodies.contains_key(ino));
    assert forall|d: u64, n: Seq<char>|
        post.nodes.contains_key(d) && #[trigger] post.nodes[d].has_name(n) implies {
        let c = post.nodes[d].ino_of(n);
        &&& post.attrs.contains_key(c)
        &&& c != 1
        &&& post.nodes.contains_key(c)
        &&& post.nodes[c].parent == d
        &&& post.nodes[c].name == n
    } by {
        let c = post.nodes[d].ino_of(n);
        if d == ino {
            assert(post.nodes[d].entries.len() == 0);
            assert(false);
        } else if d == parent {
            if n == name {
                assert(c == ino);
            } else {
                assert(m.nodes[parent].has_name(n));
                assert(c == m.nodes[parent].ino_of(n));
                assert(m.attrs.contains_key(c));
                assert(c != ino);
            }
        } else {
            assert(m.nodes[d].has_name(n));
            assert(c == m.nodes[d].ino_of(n));
            assert(m.attrs.contains_key(c));
            assert(c != ino);
        }
    }
    assert(post.wf());
}

/// The state after `rename(parent, name, newparent, newname)` succeeds on
/// distinct source and destination: the entry leaves `parent`, any entry
/// already at `(newparent, newname)` is overwritten (its inode keeps its
/// records but is no longer reachable), and the moved inode's own record is
/// relabeled with its new name and parent.
pub open spec fn rename_model(
    m: FsModel,
    parent: u64,
    name: Seq<char>,
    newparent: u64,
    newname: Seq<char>,
) -> FsModel {
    let mv = m.nodes[parent].ino_of(name);
    let nodes1 = m.nodes.insert(parent, m.nodes[parent].without(name));
    let nodes2 = nodes1.insert(newparent, nodes1[newparent].with_entry(newname, mv));
    let nodes3 = nodes2.insert(mv, nodes2[mv].relabeled(newname, newparent));
    FsModel { attrs: m.attrs, bodies: m.bodies, nodes: nodes3, next_ino: m.next_ino }
}

/// Moving a child entry between directories (or within one, under a new
/// name) preserves the filesystem invariants.
proof fn lemma_rename_wf(
    m: FsModel,
    parent: u64,
    name: Seq<char>,
    newparent: u64,
    newname: Seq<char>,
)
    requires
        m.wf(),
        m.nodes.contains_key(parent),
        m.nodes.contains_key(newparent),
        m.nodes[parent].has_name(name),
        !(parent == newparent && name == newname),
    ensures
        rename_model(m, parent, name, newparent, newname).wf(),
{
    let mv = m.nodes[parent].ino_of(name);
    assert(m.attrs.contains_key(mv) && mv != 1 && m.nodes.contains_key(mv));
    assert(m.nodes[mv].parent == parent && m.nodes[mv].name == name);
    let p_removed = m.nodes[parent].without(name);
    lemma_without(m.nodes[parent], name);
    let nodes1 = m.nodes.insert(parent, p_removed);
    let base_np = nodes1[newparent];
    assert(base_np.names_unique());
    lemma_without(base_np, newname);
    lemma_with_entry(base_np, newname, mv);
    let np_new = base_np.with_entry(newname, mv);
    let nodes2 = nodes1.insert(newparent, np_new);
    let nodes3 = nodes2.insert(mv, nodes2[mv].relabeled(newname, newparent));
    let post = rename_model(m, parent, name, newparent, newname);
    assert(post.nodes == nodes3);
    assert forall|k: u64| nodes3.contains_key(k) implies nodes3[k].names_unique() by {
        assert(nodes3[k].entries == nodes2[k].entries);
        if k == newparent {
            assert(nodes2[k] == np_new);
        } else if k == parent {
            assert(nodes2[k] == p_removed);
        } else {
            assert(nodes2[k] == m.nodes[k]);
        }
    }
    assert forall|d: u64, n: Seq<char>|
        nodes3.contains_key(d) && #[trigger] nodes3[d].has_name(n) implies {
        let x = nodes3[d].ino_of(n);
        &&& m.attrs.contains_key(x)
        &&& x != 1
        &&& nodes3.contains_key(x)
        &&& nodes3[x].parent == d
        &&& nodes3[x].name == n
    } by {
        let x = nodes3[d].ino_of(n);
        assert(nodes3[d].entries == nodes2[d].entries);
        assert(nodes3[d].has_name(n) == nodes2[d].has_name(n));
        assert(nodes3[d].ino_of(n) == nodes2[d].ino_of(n));
        if d == newparent && n == newname {
            assert(x == mv);
            assert(nodes3[mv] == nodes2[mv].relabeled(newname, newparent));
        } else {
            if d == newparent {
                assert(nodes2[d] == np_new);
                assert(base_np.has_name(n) && x == base_np.ino_of(n));
                if newparent == parent {
                    assert(base_np == p_removed);
                    assert(n != name && m.nodes[parent].has_name(n) && x == m.nodes[parent].ino_of(
                        n,
                    ));
                } else {
                    assert(base_np == m.nodes[newparent]);
                }
            } else if d == parent {
                assert(nodes2[d] == p_removed);
                assert(n != name && m.nodes[parent].has_name(n) && x == m.nodes[parent].ino_of(n));
            } else {
                assert(nodes2[d].entries == m.nodes[d].entries);
                assert(m.nodes[d].has_name(n) && x == m.nodes[d].ino_of(n));
            }
            assert(m.nodes.contains_key(d) && m.nodes[d].has_name(n) && x == m.nodes[d].ino_of(n));
            assert(m.attrs.contains_key(x));
            assert(m.nodes[x].parent == d && m.nodes[x].name == n);
            if x == mv {
                assert(d == parent && n == name);
                if parent == newparent {
                    assert(!np_new.has_name(name));
                } else {
                    assert(!p_removed.has_name(name));
                }
                assert(false);
            }
            assert(nodes3[x].parent == m.nodes[x].parent && nodes3[x].name == m.nodes[x].name);
        }
    }
    assert(nodes3[1].parent == 1);
    assert(post.wf());
}

/// The in-memory filesystem: attribute, directory-entry and file-body
/// tables plus the inode-number allocator, seeded with root inode 1.
pub struct RamFS {
    files: HashMapWithView<u64, File>,
    attrs: HashMapWithView<u64, FileAttr>,
    inodes: HashMapWithView<u64, Inode>,
    next_inode: u64,
}

impl View for RamFS {
    type V = FsModel;

    closed spec fn view(&self) -> FsModel {
        FsModel {
            attrs: self.attrs@,
            bodies: self.files@.map_values(|f: File| f@),
            nodes: self.inodes@.map_values(|n: Inode| n@),
            next_ino: self.next_inode,
        }
    }
}

impl RamFS {
    /// Seeds the tables with the root directory: inode 1, mode 0o755, its
    /// own parent, no children, and no regular files yet.
    pub fn new() -> (fs: RamFS)
        ensures
            fs@.wf(),
            fs@.next_ino == 2,
            fs@.bodies =~= Map::<u64, Seq<u8>>::empty(),
            fs@.attrs.dom() =~= Set::<u64>::empty().insert(1),
            fs@.attrs[1] == root_attr(fs@.attrs[1].atime),
            fs@.nodes.dom() =~= Set::<u64>::empty().insert(1),
            fs@.nodes[1] == (NodeModel { name: "/"@, parent: 1u64, entries: Seq::empty() }),
    {
        let ts = now_timespec();
        let attr = FileAttr {
            ino: 1,
            size: 0,
            blocks: 0,
            atime: ts,
            mtime: ts,
            ctime: ts,
            crtime: ts,
            kind: FileType::Directory,
            perm: 0o755,
            nlink: 0,
            uid: 0,
            gid: 0,
            rdev: 0,
            flags: 0,
        };
        let mut attrs: HashMapWithView<u64, FileAttr> = HashMapWithView::new();
        attrs.insert(1, attr);
        let mut inodes: HashMapWithView<u64, Inode> = HashMapWithView::new();
        let root = Inode::new_inode(root_name(), 1);
        inodes.insert(1, root);
        let files: HashMapWithView<u64, File> = HashMapWithView::new();
        let fs = RamFS { files, attrs, inodes, next_inode: 2 };
        proof {
            assert(fs@.nodes =~= Map::<u64, NodeModel>::empty().insert(1, root@));
            assert(fs@.bodies =~= Map::<u64, Seq<u8>>::empty());
            assert forall|d: u64, n: Seq<char>|
                fs@.nodes.contains_key(d) && #[trigger] fs@.nodes[d].has_name(n) implies false by {
                assert(fs@.nodes[d].entries.len() == 0);
            }
        }
        fs
    }

    /// Hands out the next inode number and advances the allocator.
    fn get_next_inode(&mut self) -> (ino: u64)
        requires
            old(self).next_inode < u64::MAX,
        ensures
            ino == old(self)@.next_ino,
            final(self)@ == (FsModel { next_ino: (old(self)@.next_ino + 1) as u64, ..old(self)@ }),
    {
        let ino = self.next_inode;
        self.next_inode = self.next_inode + 1;
        ino
    }

    /// Replies with the attribute record of `ino`, or ENOENT.
    pub fn getattr(&self, ino: u64) -> (r: Result<FileAttr, FsError>)
        ensures
            r == spec_getattr(self@, ino),
    {
        match self.attrs.get(&ino) {
            Some(attr) => Ok(*attr),
            None => Err(FsError::NoEnt),
        }
    }

    /// Resolves `name` among the children of `parent` and replies with the
    /// child's attribute record, or ENOENT.
    pub fn lookup(&self, parent: u64, name: &String) -> (r: Result<FileAttr, FsError>)
        requires
            self@.wf(),
        ensures
            r == spec_lookup(self@, parent, name@),
    {
        match self.inodes.get(&parent) {
            Some(parent_node) => {
                match parent_node.child(name) {
                    Some(child_ino) => {
                        match self.attrs.get(&child_ino) {
                            Some(attr) => Ok(*attr),
                            None => Err(FsError::NoEnt),
                        }
                    },
                    None => Err(FsError::NoEnt),
                }
            },
            None => Err(FsError::NoEnt),
        }
    }

    /// Creates a directory named `name` under `parent`: EINVAL when the
    /// parent is unknown, EEXIST when the name is taken, otherwise a fresh
    /// inode with an empty children set, mode 0o644 and all timestamps at
    /// the call instant.
    pub fn mkdir(&mut self, parent: u64, name: &String, _mode: u32) -> (r: Result<
        FileAttr,
        FsError,
    >)
        requires
            old(self)@.wf(),
            old(self)@.next_ino < u64::MAX,
        ensures
            final(self)@.wf(),
            !old(self)@.nodes.contains_key(parent) ==> r == Err::<FileAttr, FsError>(
                FsError::Inval,
            ) && final(self)@ == old(self)@,
            old(self)@.nodes.contains_key(parent) && old(self)@.nodes[parent].has_name(name@)
                ==> r == Err::<FileAttr, FsError>(FsError::Exist) && final(self)@ == old(self)@,
            old(self)@.nodes.contains_key(parent) && !old(self)@.nodes[parent].has_name(name@)
                ==> (r matches Ok(a) && a == dir_attr(old(self)@.next_ino, a.atime)
                && final(self)@ =~~= mkdir_model(old(self)@, parent, name@, a.atime)),
    {
        let parent_known = match self.inodes.get(&parent) {
            Some(parent_node) => {
                if parent_node.child(name).is_some() {
                    return Err(FsError::Exist);
                }
                true
            },
            None => false,
        };
        if !parent_known {
            return Err(FsError::Inval);
        }
        let ino = self.get_next_inode();
        let ts = now_timespec();
        let attr = FileAttr {
            ino,
            size: 0,
            blocks: 0,
            atime: ts,
            mtime: ts,
            ctime: ts,
            crtime: ts,
            kind: FileType::Directory,
            perm: 0o644,
            nlink: 0,
            uid: 0,
            gid: 0,
            rdev: 0,
            flags: 0,
        };
        let mut parent_node = self.inodes.remove(&parent).unwrap();
        parent_node.insert_child(name.clone(), ino);
        self.inodes.insert(parent, parent_node);
        self.attrs.insert(ino, attr);
        self.inodes.insert(ino, Inode::new_inode(name.clone(), parent));
        proof {
            lemma_creation_wf(old(self)@, parent, name@, ts, true);
            assert(self@.nodes =~= mkdir_model(old(self)@, parent, name@, ts).nodes);
            assert(self@.attrs =~= mkdir_model(old(self)@, parent, name@, ts).attrs);
            assert(self@.bodies =~= mkdir_model(old(self)@, parent, name@, ts).bodies);
            assert(self@ =~~= mkdir_model(old(self)@, parent, name@, ts));
        }
        Ok(attr)
    }

    /// Creates a regular file named `name` under `parent`: EINVAL when the
    /// parent is unknown; when the name already exists, the existing
    /// child's attribute record unchanged (idempotent create, nothing
    /// allocated); otherwise a fresh inode with an empty body, mode 0o755
    /// and all timestamps at the call instant.
    pub fn create(&mut self, parent: u64, name: &String, _mode: u32, _flags: u32) -> (r: Result<
        FileAttr,
        FsError,
    >)
        requires
            old(self)@.wf(),
            old(self)@.next_ino < u64::MAX,
        ensures
            final(self)@.wf(),
            !old(self)@.nodes.contains_key(parent) ==> r == Err::<FileAttr, FsError>(
                FsError::Inval,
            ) && final(self)@ == old(self)@,
            old(self)@.nodes.contains_key(parent) && old(self)@.nodes[parent].has_name(name@)
                ==> r == Ok::<FileAttr, FsError>(
                old(self)@.attrs[old(self)@.nodes[parent].ino_of(name@)],
            ) && final(self)@ == old(self)@,
            old(self)@.nodes.contains_key(parent) && !old(self)@.nodes[parent].has_name(name@)
                ==> (r matches Ok(a) && a == file_attr(old(self)@.next_ino, a.atime)
                && final(self)@ =~~= create_model(old(self)@, parent, name@, a.atime)),
    {
        match self.inodes.get(&parent) {
            Some(parent_node) => {
                match parent_node.child(name) {
                    Some(existing) => {
                        let attr = *self.attrs.get(&existing).unwrap();
                        return Ok(attr);
                    },
                    None => {},
                }
            },
            None => {
                return Err(FsError::Inval);
            },
        }
        let ino = self.get_next_inode();
        let ts = now_timespec();
        let attr = FileAttr {
            ino,
            size: 0,
            blocks: 0,
            atime: ts,
            mtime: ts,
            ctime: ts,
            crtime: ts,
            kind: FileType::RegularFile,
            perm: 0o755,
            nlink: 0,
            uid: 0,
            gid: 0,
            rdev: 0,
            flags: 0,
        };
        let mut parent_node = self.inodes.remove(&parent).unwrap();
        parent_node.insert_child(name.clone(), ino);
        self.inodes.insert(parent, parent_node);
        self.attrs.insert(ino, attr);
        self.files.insert(ino, File::new_file());
        self.inodes.insert(ino, Inode::new_inode(name.clone(), parent));
        proof {
            lemma_creation_wf(old(self)@, parent, name@, ts, false);
            assert(self@.nodes =~= create_model(old(self)@, parent, name@, ts).nodes);
            assert(self@.attrs =~= create_model(old(self)@, parent, name@, ts).attrs);
            assert(self@.bodies =~= create_model(old(self)@, parent, name@, ts).bodies);
            assert(self@ =~~= create_model(old(self)@, parent, name@, ts));
        }
        Ok(attr)
    }

    /// Applies the provided fields to the attribute record of `ino` and
    /// replies with the updated record, or ENOENT.  A provided size
    /// truncates the file body; the stored size always ends up equal to
    /// the body's length, so a size past the current length (which the
    /// truncate primitive leaves alone) is not stored verbatim.
    pub fn setattr(
        &mut self,
        ino: u64,
        mode: Option<u32>,
        uid: Option<u32>,
        gid: Option<u32>,
        size: Option<u64>,
        atime: Option<Timespec>,
        mtime: Option<Timespec>,
        crtime: Option<Timespec>,
    ) -> (r: Result<FileAttr, FsError>)
        requires
            old(self)@.wf(),
        ensures
            final(self)@.wf(),
            !old(self)@.attrs.contains_key(ino) ==> r == Err::<FileAttr, FsError>(FsError::NoEnt)
                && final(self)@ == old(self)@,
            old(self)@.attrs.contains_key(ino) ==> {
                &&& final(self)@ =~~= setattr_model(
                    old(self)@,
                    ino,
                    mode,
                    uid,
                    gid,
                    size,
                    atime,
                    mtime,
                    crtime,
                )
                &&& r == Ok::<FileAttr, FsError>(final(self)@.attrs[ino])
            },
    {
        let mut attr = match self.attrs.get(&ino) {
            Some(a) => *a,
            None => {
                return Err(FsError::NoEnt);
            },
        };
        match mode {
            Some(mo) => {
                attr.perm = (mo & 0o777) as u16;
            },
            None => {},
        }
        match uid {
            Some(u) => {
                attr.uid = u;
            },
            None => {},
        }
        match gid {
            Some(g) => {
                attr.gid = g;
            },
            None => {},
        }
        match atime {
            Some(t) => {
                attr.atime = t;
            },
            None => {},
        }
        match mtime {
            Some(t) => {
                attr.mtime = t;
            },
            None => {},
        }
        match crtime {
            Some(t) => {
                attr.crtime = t;
            },
            None => {},
        }
        match size {
            Some(sz) => {
                match self.files.remove(&ino) {
                    Some(mut body) => {
                        body.truncate_bytes(sz);
                        attr.size = body.get_file_size();
                        self.files.insert(ino, body);
                    },
                    None => {},
                }
            },
            None => {},
        }
        self.attrs.insert(ino, attr);
        proof {
            let post = setattr_model(old(self)@, ino, mode, uid, gid, size, atime, mtime, crtime);
            assert(self@.bodies =~= post.bodies);
            assert(self@.attrs =~= post.attrs);
            assert(self@ =~~= post);
            assert(self@.wf());
        }
        Ok(attr)
    }

    /// Applies the edit primitive to the body of `ino` at `offset` with
    /// `data`, stamps `atime` and `mtime`, stores the body's new length as
    /// the size, and replies with the number of bytes taken from `data`
    /// (not the new total size), or ENOENT when `ino` has no body.
    pub fn write(&mut self, ino: u64, offset: i64, data: &[u8]) -> (r: Result<u64, FsError>)
        requires
            old(self)@.wf(),
            0 <= offset,
            offset + data@.len() <= usize::MAX,
            old(self)@.bodies.contains_key(ino) ==> old(self)@.bodies[ino].len() + data@.len()
                <= usize::MAX,
        ensures
            final(self)@.wf(),
            !old(self)@.bodies.contains_key(ino) ==> r == Err::<u64, FsError>(FsError::NoEnt)
                && final(self)@ == old(self)@,
            old(self)@.bodies.contains_key(ino) ==> {
                &&& r == Ok::<u64, FsError>(data@.len() as u64)
                &&& final(self)@ =~~= write_model(
                    old(self)@,
                    ino,
                    offset as int,
                    data@,
                    final(self)@.attrs[ino].atime,
                )
                &&& final(self)@.attrs[ino].size == final(self)@.bodies[ino].len()
            },
    {
        let mut body = match self.files.remove(&ino) {
            Some(f) => f,
            None => {
                return Err(FsError::NoEnt);
            },
        };
        proof {
            assert(old(self)@.bodies.contains_key(ino));
            assert(old(self)@.bodies[ino] == body@);
            assert(old(self)@.attrs.contains_key(ino));
        }
        let ts = now_timespec();
        let written = body.update_file(offset, data);
        let mut attr = *self.attrs.get(&ino).unwrap();
        attr.atime = ts;
        attr.mtime = ts;
        attr.size = body.get_file_size();
        self.files.insert(ino, body);
        self.attrs.insert(ino, attr);
        proof {
            let post = write_model(old(self)@, ino, offset as int, data@, ts);
            assert(self@.bodies =~= post.bodies);
            assert(self@.attrs =~= post.attrs);
            assert(self@ =~~= post);
            assert(self@.wf());
        }
        Ok(written)
    }

    /// Replies with the bytes of the body of `ino` from `offset` through
    /// the end — empty when `offset` is at or past the end — and stamps
    /// `atime`; ENOENT when `ino` has no body.
    pub fn read(&mut self, ino: u64, offset: i64, _size: u32) -> (r: Result<Vec<u8>, FsError>)
        requires
            old(self)@.wf(),
            0 <= offset,
        ensures
            final(self)@.wf(),
            !old(self)@.bodies.contains_key(ino) ==> r == Err::<Vec<u8>, FsError>(FsError::NoEnt)
                && final(self)@ == old(self)@,
            old(self)@.bodies.contains_key(ino) ==> {
                &&& r matches Ok(v) && v@ == spec_read_from(
                    old(self)@.bodies[ino],
                    offset as int,
                )
                &&& final(self)@ =~~= (FsModel {
                    attrs: old(self)@.attrs.insert(
                        ino,
                        FileAttr { atime: final(self)@.attrs[ino].atime, ..old(self)@.attrs[ino] },
                    ),
                    ..old(self)@
                })
            },
    {
        let out = match self.files.get(&ino) {
            Some(f) => f.read_from(offset),
            None => {
                return Err(FsError::NoEnt);
            },
        };
        let ts = now_timespec();
        let mut attr = *self.attrs.get(&ino).unwrap();
        attr.atime = ts;
        self.attrs.insert(ino, attr);
        proof {
            assert(self@.attrs =~= old(self)@.attrs.insert(
                ino,
                FileAttr { atime: ts, ..old(self)@.attrs[ino] },
            ));
            assert(self@.bodies =~= old(self)@.bodies);
            assert(self@.wf());
        }
        Ok(out)
    }

    /// Removes the child of `parent` named `name`, together with its
    /// attribute record and — for a regular file — its body; ENOENT when
    /// the parent or the name is missing.
    pub fn unlink(&mut self, parent: u64, name: &String) -> (r: Result<(), FsError>)
        requires
            old(self)@.wf(),
        ensures
            final(self)@.wf(),
            !old(self)@.nodes.contains_key(parent) ==> r == Err::<(), FsError>(FsError::NoEnt)
                && final(self)@ == old(self)@,
            old(self)@.nodes.contains_key(parent) && !old(self)@.nodes[parent].has_name(name@)
                ==> r == Err::<(), FsError>(FsError::NoEnt) && final(self)@ == old(self)@,
            old(self)@.nodes.contains_key(parent) && old(self)@.nodes[parent].has_name(name@)
                ==> r == Ok::<(), FsError>(()) && final(self)@ =~~= remove_entry_model(
                old(self)@,
                parent,
                name@,
            ),
    {
        let mut parent_node = match self.inodes.remove(&parent) {
            Some(node) => node,
            None => {
                return Err(FsError::NoEnt);
            },
        };
        let removed = parent_node.remove_child(name);
        self.inodes.insert(parent, parent_node);
        let child_ino = match removed {
            Some(c) => c,
            None => {
                proof {
                    assert(self@.nodes =~= old(self)@.nodes);
                    assert(self@ =~~= old(self)@);
                }
                return Err(FsError::NoEnt);
            },
        };
        match self.attrs.remove(&child_ino) {
            Some(attr) => {
                if attr.kind == FileType::RegularFile {
                    self.files.remove(&child_ino);
                }
            },
            None => {},
        }
        self.inodes.remove(&child_ino);
        proof {
            lemma_remove_entry_wf(old(self)@, parent, name@);
            let post = remove_entry_model(old(self)@, parent, name@);
            assert(self@.attrs =~= post.attrs);
            assert(self@.bodies =~= post.bodies);
            assert(self@.nodes =~= post.nodes);
            assert(self@ =~~= post);
        }
        Ok(())
    }

    /// Removes the (empty) directory child of `parent` named `name`:
    /// ENOENT when the parent or the name is missing or the target is not
    /// a directory, ENOTEMPTY — with no state change — exactly when the
    /// target's children set is non-empty at the call instant.
    pub fn rmdir(&mut self, parent: u64, name: &String) -> (r: Result<(), FsError>)
        requires
            old(self)@.wf(),
        ensures
            final(self)@.wf(),
            !old(self)@.nodes.contains_key(parent) ==> r == Err::<(), FsError>(FsError::NoEnt)
                && final(self)@ == old(self)@,
            old(self)@.nodes.contains_key(parent) && !old(self)@.nodes[parent].has_name(name@)
                ==> r == Err::<(), FsError>(FsError::NoEnt) && final(self)@ == old(self)@,
            old(self)@.nodes.contains_key(parent) && old(self)@.nodes[parent].has_name(name@)
                ==> ({
                let c = old(self)@.nodes[parent].ino_of(name@);
                &&& old(self)@.attrs[c].kind != FileType::Directory ==> r == Err::<(), FsError>(
                    FsError::NoEnt,
                ) && final(self)@ == old(self)@
                &&& old(self)@.attrs[c].kind == FileType::Directory && old(self)@.nodes[c].entries.len()
                    != 0 ==> r == Err::<(), FsError>(FsError::NotEmpty) && final(self)@ == old(
                    self,
                )@
                &&& old(self)@.attrs[c].kind == FileType::Directory && old(self)@.nodes[c].entries.len()
                    == 0 ==> r == Ok::<(), FsError>(()) && final(self)@ =~~= remove_entry_model(
                    old(self)@,
                    parent,
                    name@,
                )
            }),
    {
        let target = match self.inodes.get(&parent) {
            Some(parent_node) => {
                match parent_node.child(name) {
                    Some(c) => c,
                    None => {
                        return Err(FsError::NoEnt);
                    },
                }
            },
            None => {
                return Err(FsError::NoEnt);
            },
        };
        let is_dir = match self.attrs.get(&target) {
            Some(attr) => attr.kind == FileType::Directory,
            None => false,
        };
        if !is_dir {
            return Err(FsError::NoEnt);
        }
        let empty = match self.inodes.get(&target) {
            Some(target_node) => target_node.child_count() == 0,
            None => false,
        };
        if !empty {
            return Err(FsError::NotEmpty);
        }
        let mut parent_node = self.inodes.remove(&parent).unwrap();
        let _removed = parent_node.remove_child(name);
        self.inodes.insert(parent, parent_node);
        self.attrs.remove(&target);
        self.inodes.remove(&target);
        proof {
            lemma_remove_entry_wf(old(self)@, parent, name@);
            let post = remove_entry_model(old(self)@, parent, name@);
            assert(self@.attrs =~= post.attrs);
            assert(self@.bodies =~= post.bodies);
            assert(self@.nodes =~= post.nodes);
            assert(self@ =~~= post);
        }
        Ok(())
    }

    /// Moves the child of `parent` named `name` to `newparent` under
    /// `newname`: EINVAL when either parent is unknown, ENOENT when the
    /// name is missing, and a no-op when source and destination coincide.
    /// An entry already at the destination is overwritten.
    pub fn rename(&mut self, parent: u64, name: &String, newparent: u64, newname: &String) -> (r:
        Result<(), FsError>)
        requires
            old(self)@.wf(),
        ensures
            final(self)@.wf(),
            (!old(self)@.nodes.contains_key(parent) || !old(self)@.nodes.contains_key(newparent))
                ==> r == Err::<(), FsError>(FsError::Inval) && final(self)@ == old(self)@,
            old(self)@.nodes.contains_key(parent) && old(self)@.nodes.contains_key(newparent)
                ==> {
                &&& !old(self)@.nodes[parent].has_name(name@) ==> r == Err::<(), FsError>(
                    FsError::NoEnt,
                ) && final(self)@ == old(self)@
                &&& old(self)@.nodes[parent].has_name(name@) && parent == newparent && name@
                    == newname@ ==> r == Ok::<(), FsError>(()) && final(self)@ == old(self)@
                &&& old(self)@.nodes[parent].has_name(name@) && !(parent == newparent && name@
                    == newname@) ==> r == Ok::<(), FsError>(()) && final(self)@ =~~= rename_model(
                    old(self)@,
                    parent,
                    name@,
                    newparent,
                    newname@,
                )
            },
    {
        if !self.inodes.contains_key(&parent) || !self.inodes.contains_key(&newparent) {
            return Err(FsError::Inval);
        }
        if parent == newparent && *name == *newname {
            let present = match self.inodes.get(&parent) {
                Some(parent_node) => {
                    proof {
                        assert(parent_node@ == self@.nodes[parent]);
                    }
                    parent_node.child(name).is_some()
                },
                None => false,
            };
            if present {
                return Ok(());
            } else {
                return Err(FsError::NoEnt);
            }
        }
        let mut parent_node = self.inodes.remove(&parent).unwrap();
        proof {
            assert(old(self)@.nodes.contains_key(parent));
            assert(old(self)@.nodes.contains_key(newparent));
            assert(parent_node@ == old(self)@.nodes[parent]);
            assert(parent_node@.names_unique());
        }
        let moved = parent_node.remove_child(name);
        self.inodes.insert(parent, parent_node);
        let moved_ino = match moved {
            Some(c) => c,
            None => {
                proof {
                    assert(self@.nodes =~= old(self)@.nodes);
                    assert(self@ =~~= old(self)@);
                }
                return Err(FsError::NoEnt);
            },
        };
        proof {
            lemma_without(old(self)@.nodes[parent], name@);
        }
        let mut new_parent_node = self.inodes.remove(&newparent).unwrap();
        proof {
            assert(old(self)@.nodes.contains_key(newparent));
            if newparent == parent {
                assert(new_parent_node@ == old(self)@.nodes[parent].without(name@));
            } else {
                assert(new_parent_node@ == old(self)@.nodes[newparent]);
                assert(new_parent_node@.names_unique());
            }
            lemma_without(new_parent_node@, newname@);
        }
        let _victim = new_parent_node.remove_child(newname);
        new_parent_node.insert_child(newname.clone(), moved_ino);
        self.inodes.insert(newparent, new_parent_node);
        let mut moved_node = self.inodes.remove(&moved_ino).unwrap();
        moved_node.relabel(newname.clone(), newparent);
        self.inodes.insert(moved_ino, moved_node);
        proof {
            lemma_rename_wf(old(self)@, parent, name@, newparent, newname@);
            let post = rename_model(old(self)@, parent, name@, newparent, newname@);
            assert(self@.nodes =~= post.nodes);
            assert(self@ =~~= post);
        }
        Ok(())
    }

    /// Lists the directory `ino` from resume offset `offset`: the synthetic
    /// entries `.` and `..` first, then each child in listing order, each
    /// entry carrying its sequential index as its cookie.  Offset 0 starts
    /// at the beginning; a non-zero offset resumes after the entry
    /// previously reported at that cookie.  ENOENT when `ino` is unknown
    /// or not a directory.
    pub fn readdir(&self, ino: u64, offset: i64) -> (r: Result<Vec<DirEntry>, FsError>)
        requires
            self@.wf(),
            0 <= offset,
            self@.nodes.contains_key(ino) ==> self@.nodes[ino].entries.len() + 2 <= i64::MAX,
        ensures
            match r {
                Ok(v) => {
                    &&& spec_readdir(self@, ino, offset) is Ok
                    &&& v@.len() == spec_readdir(self@, ino, offset).unwrap().len()
                    &&& forall|j: int|
                        0 <= j < v@.len() ==> v@[j]@ == spec_readdir(self@, ino, offset).unwrap()[j]
                },
                Err(e) => spec_readdir(self@, ino, offset) == Err::<Seq<DirEntryModel>, FsError>(e),
            },
    {
        match self.attrs.get(&ino) {
            Some(attr) => {
                if attr.kind != FileType::Directory {
                    return Err(FsError::NoEnt);
                }
            },
            None => {
                return Err(FsError::NoEnt);
            },
        }
        let node = match self.inodes.get(&ino) {
            Some(n) => n,
            None => {
                return Err(FsError::NoEnt);
            },
        };
        let count = node.child_count();
        let total: i64 = count as i64 + 2;
        let ghost full = spec_readdir_full(self@, ino);
        proof {
            assert(full.len() == total);
        }
        let start: i64 = if offset == 0 {
            0
        } else {
            if offset >= total {
                let empty_reply: Vec<DirEntry> = Vec::new();
                return Ok(empty_reply);
            }
            offset + 1
        };
        let mut out: Vec<DirEntry> = Vec::new();
        let mut i: i64 = start;
        while i < total
            invariant
                self@.wf(),
                self@.nodes.contains_key(ino),
                node@ == self@.nodes[ino],
                full == spec_readdir_full(self@, ino),
                total == node@.entries.len() + 2,
                node@.entries.len() <= usize::MAX,
                0 <= start <= i <= total,
                out@.len() == i - start,
                forall|j: int| 0 <= j < out@.len() ==> out@[j]@ == full[start + j],
            decreases total - i,
        {
            if i == 0 {
                out.push(DirEntry { ino, cookie: 0, kind: FileType::Directory, name: dot_name() });
            } else if i == 1 {
                out.push(
                    DirEntry {
                        ino: node.parent_ino(),
                        cookie: 1,
                        kind: FileType::Directory,
                        name: dotdot_name(),
                    },
                );
            } else {
                let idx = (i - 2) as usize;
                let entry = node.entry_at(idx);
                proof {
                    lemma_index_of(node@, node@.entries[idx as int].0, idx as int);
                    assert(self@.nodes[ino].has_name(node@.entries[idx as int].0));
                    assert(self@.nodes[ino].ino_of(node@.entries[idx as int].0) == node@.entries[
                        idx as int
                    ].1);
                    assert(self@.attrs.contains_key(node@.entries[idx as int].1));
                }
                let kind = match self.attrs.get(&entry.1) {
                    Some(attr) => attr.kind,
                    None => FileType::RegularFile,
                };
                out.push(DirEntry { ino: entry.1, cookie: i, kind, name: entry.0 });
            }
            i = i + 1;
            proof {
                assert(out@[out@.len() - 1]@ =~= full[i - 1]);
            }
        }
        proof {
            let skip = if offset == 0 { 0int } else { offset + 1 };
            assert(spec_readdir(self@, ino, offset) == Ok::<Seq<DirEntryModel>, FsError>(
                full.skip(skip),
            ));
            assert(full.skip(skip).len() == total - start);
            assert forall|j: int| 0 <= j < out@.len() implies out@[j]@ == full.skip(skip)[j] by {
                assert(full.skip(skip)[j] == full[start + j]);
            }
        }
        Ok(out)
    }

    /// Replies with a zero file handle and zero open flags; `open` checks
    /// nothing and changes nothing.
    pub fn open(&self, _ino: u64, _flags: u32) -> (r: (u64, u32))
        ensures
            r == (0u64, 0u32),
    {
        (0, 0)
    }
}

/// The name the root directory is seeded with.
fn root_name() -> (s: String)
    ensures
        s@ == "/"@,
{
    String::from_str("/")
}

/// The name of the synthetic first directory entry.
fn dot_name() -> (s: String)
    ensures
        s@ == seq!['.'],
{
    let s = String::from_str(".");
    proof {
        reveal_strlit(".");
        assert(s@ =~= seq!['.']);
    }
    s
}

/// The name of the synthetic second directory entry.
fn dotdot_name() -> (s: String)
    ensures
        s@ == seq!['.', '.'],
{
    let s = String::from_str("..");
    proof {
        reveal_strlit("..");
        assert(s@ =~= seq!['.', '.']);
    }
    s
}

} // verus!
