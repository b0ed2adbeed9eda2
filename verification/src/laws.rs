//! The library-wide laws, each stated over the filesystem model and proved
//! from what the handlers' contracts establish.
use crate::file::{lemma_update_overwrite, lemma_update_past_end, spec_read_from, spec_truncate};
use crate::fs::{
    create_model, setattr_model, spec_lookup, spec_readdir, spec_readdir_full, write_model,
    FsModel,
};
use crate::inode::lemma_with_entry;
use crate::types::{file_attr, DirEntryModel, FileAttr, FileType, FsError, Timespec};
use vstd::prelude::*;

verus! {

/// Every child inode named in any directory has a matching attribute
/// record; the handlers keep this through every operation, since each one
/// ends in a well-formed state.
pub proof fn lemma_children_have_attrs(m: FsModel, d: u64, n: Seq<char>)
    requires
        m.wf(),
        m.nodes.contains_key(d),
        m.nodes[d].has_name(n),
    ensures
        m.attrs.contains_key(m.nodes[d].ino_of(n)),
{
}

/// No inode stands as a child under two different directory slots: the
/// directory tree assigns each live inode at most one (parent, name).
pub proof fn lemma_child_unique_location(m: FsModel, d1: u64, n1: Seq<char>, d2: u64, n2: Seq<char>)
    requires
        m.wf(),
        m.nodes.contains_key(d1),
        m.nodes.contains_key(d2),
        m.nodes[d1].has_name(n1),
        m.nodes[d2].has_name(n2),
        m.nodes[d1].ino_of(n1) == m.nodes[d2].ino_of(n2),
    ensures
        d1 == d2,
        n1 == n2,
{
}

/// Inode numbers are handed out strictly increasing and never reused: the
/// number a creation returns is the allocator's value at the call, which
/// is fresh, and once that inode is live every later allocation lies
/// strictly above it.  With `create` and `mkdir` ensuring that a fresh
/// creation returns the pre-state's `next_ino` and leaves the returned
/// inode live, two successful creations return distinct, increasing
/// numbers.
pub proof fn lemma_allocations_increase(m0: FsModel, m1: FsModel, i1: u64, i2: u64)
    requires
        m0.wf(),
        m1.wf(),
        i1 == m0.next_ino,
        m1.attrs.contains_key(i1),
        i2 == m1.next_ino,
    ensures
        i2 > i1,
        !m0.attrs.contains_key(i1),
        !m1.attrs.contains_key(i2),
{
}

/// A readdir from offset 0 enumerates the whole listing: `.` first (the
/// directory itself), `..` second (its parent), then exactly the current
/// children in listing order — together a permutation of `{".", ".."}`
/// and the children set.  The listing is a function of the state alone,
/// so it is stable between mutations.
pub proof fn lemma_readdir_enumeration(m: FsModel, ino: u64)
    requires
        m.wf(),
        m.nodes.contains_key(ino),
        m.attrs[ino].kind == FileType::Directory,
    ensures
        spec_readdir(m, ino, 0) == Ok::<Seq<DirEntryModel>, FsError>(spec_readdir_full(m, ino)),
        spec_readdir_full(m, ino).len() == 2 + m.nodes[ino].entries.len(),
        spec_readdir_full(m, ino)[0].name == seq!['.'],
        spec_readdir_full(m, ino)[0].ino == ino,
        spec_readdir_full(m, ino)[1].name == seq!['.', '.'],
        spec_readdir_full(m, ino)[1].ino == m.nodes[ino].parent,
        forall|i: int|
            0 <= i < m.nodes[ino].entries.len() ==> (#[trigger] spec_readdir_full(m, ino)[i + 2]).name
                == m.nodes[ino].entries[i].0 && spec_readdir_full(m, ino)[i + 2].ino
                == m.nodes[ino].entries[i].1,
{
    assert(spec_readdir_full(m, ino).skip(0) =~= spec_readdir_full(m, ino));
}

/// A `lookup(parent, name)` right after a fresh `create(parent, name)`
/// returns exactly the inode and attribute record the create replied
/// with.
pub proof fn lemma_lookup_after_create(m: FsModel, parent: u64, name: Seq<char>, ts: Timespec)
    requires
        m.wf(),
        m.nodes.contains_key(parent),
        !m.nodes[parent].has_name(name),
        m.next_ino < u64::MAX,
    ensures
        create_model(m, parent, name, ts).nodes[parent].has_name(name),
        create_model(m, parent, name, ts).nodes[parent].ino_of(name) == m.next_ino,
        spec_lookup(create_model(m, parent, name, ts), parent, name) == Ok::<FileAttr, FsError>(
            file_attr(m.next_ino, ts),
        ),
{
    let ino = m.next_ino;
    let post = create_model(m, parent, name, ts);
    lemma_with_entry(m.nodes[parent], name, ino);
    assert(m.attrs.contains_key(parent));
    assert(post.nodes[parent] == m.nodes[parent].with_entry(name, ino));
    assert(post.attrs[ino] == file_attr(ino, ts));
}

/// Creating a name twice allocates once: after a fresh
/// `create(parent, name)`, the name is present, and it resolves to the
/// inode just created with its unchanged attribute record — precisely the
/// reply `create`'s contract gives for an existing name, with no state
/// change and no new inode.
pub proof fn lemma_create_idempotent(m: FsModel, parent: u64, name: Seq<char>, ts: Timespec)
    requires
        m.wf(),
        m.nodes.contains_key(parent),
        !m.nodes[parent].has_name(name),
        m.next_ino < u64::MAX,
    ensures
        create_model(m, parent, name, ts).nodes.contains_key(parent),
        create_model(m, parent, name, ts).nodes[parent].has_name(name),
        create_model(m, parent, name, ts).attrs[create_model(
            m,
            parent,
            name,
            ts,
        ).nodes[parent].ino_of(name)] == file_attr(m.next_ino, ts),
{
    lemma_lookup_after_create(m, parent, name, ts);
}

/// Writing `data` at offset 0 and reading it back returns `data`, as long
/// as the edit primitive lands in one of its overwrite cases: an empty
/// body, or a payload longer than the body.  (On a non-empty body with a
/// payload no longer than it, the primitive inserts instead and the body
/// grows: writing `[2]` at offset 0 of `[1]` leaves `[2, 1]`.)
pub proof fn lemma_write_then_read(m: FsModel, ino: u64, data: Seq<u8>, ts: Timespec)
    requires
        m.wf(),
        m.bodies.contains_key(ino),
        m.bodies[ino].len() == 0 || data.len() > m.bodies[ino].len(),
    ensures
        write_model(m, ino, 0, data, ts).bodies[ino] == data,
        spec_read_from(write_model(m, ino, 0, data, ts).bodies[ino], 0) == data,
{
    lemma_update_overwrite(m.bodies[ino], data);
}

/// Truncating to size 0 through `setattr` leaves a zero size and an empty
/// body, so any following read yields nothing.
pub proof fn lemma_truncate_to_zero(m: FsModel, ino: u64)
    requires
        m.wf(),
        m.bodies.contains_key(ino),
    ensures
        setattr_model(m, ino, None, None, None, Some(0), None, None, None).attrs[ino].size == 0,
        setattr_model(m, ino, None, None, None, Some(0), None, None, None).bodies[ino]
            == Seq::<u8>::empty(),
        forall|off: int|
            0 <= off ==> #[trigger] spec_read_from(
                setattr_model(m, ino, None, None, None, Some(0), None, None, None).bodies[ino],
                off,
            ) == Seq::<u8>::empty(),
{
    assert(spec_truncate(m.bodies[ino], 0) =~= Seq::<u8>::empty());
}

/// Reading at or past the recorded size yields an empty slice, not an
/// error: the recorded size always equals the body's length.
pub proof fn lemma_read_past_end(m: FsModel, ino: u64, off: int)
    requires
        m.wf(),
        m.bodies.contains_key(ino),
        off >= m.attrs[ino].size,
    ensures
        spec_read_from(m.bodies[ino], off) == Seq::<u8>::empty(),
{
}

/// A write past the end zero-fills the gap: the old bytes stay, the bytes
/// between the old length and the write offset are zero, and the payload
/// follows, so a read over the gap returns zero bytes.
pub proof fn lemma_write_zero_fills_gap(m: FsModel, ino: u64, off: int, data: Seq<u8>, ts: Timespec)
    requires
        m.wf(),
        m.bodies.contains_key(ino),
        off > m.bodies[ino].len(),
    ensures
        write_model(m, ino, off, data, ts).bodies[ino].len() == off + data.len(),
        forall|j: int|
            m.bodies[ino].len() <= j < off ==> #[trigger] write_model(
                m,
                ino,
                off,
                data,
                ts,
            ).bodies[ino][j] == 0u8,
        write_model(m, ino, off, data, ts).bodies[ino].subrange(0, m.bodies[ino].len() as int)
            == m.bodies[ino],
        write_model(m, ino, off, data, ts).bodies[ino].subrange(off, off + data.len()) == data,
{
    lemma_update_past_end(m.bodies[ino], off, data);
}

} // verus!
