//! Directory-entry records: each live inode carries its own name, its parent
//! inode number, and an ordered list of child entries (name, child inode).
use vstd::prelude::*;

verus! {

/// The mathematical content of an [`Inode`] record: its name as a character
/// sequence, its parent inode number, and its child entries in listing
/// order.
#[verifier::ext_equal]
pub ghost struct NodeModel {
    pub name: Seq<char>,
    pub parent: u64,
    pub entries: Seq<(Seq<char>, u64)>,
}

impl NodeModel {
    /// Whether some child entry bears the name `n`.
    pub open spec fn has_name(self, n: Seq<char>) -> bool {
        exists|i: int| 0 <= i < self.entries.len() && self.entries[i].0 == n
    }

    /// The position of the child entry named `n`; meaningful only when names
    /// are unique and `n` is present.
    pub open spec fn index_of(self, n: Seq<char>) -> int {
        choose|i: int| 0 <= i < self.entries.len() && self.entries[i].0 == n
    }

    /// The inode number the child entry named `n` maps to.
    pub open spec fn ino_of(self, n: Seq<char>) -> u64 {
        self.entries[self.index_of(n)].1
    }

    /// No two child entries bear the same name.
    pub open spec fn names_unique(self) -> bool {
        forall|i: int, j: int|
            0 <= i < j < self.entries.len() ==> self.entries[i].0 != self.entries[j].0
    }

    /// This record with the child entry named `n` removed; unchanged when no
    /// entry bears that name.
    pub open spec fn without(self, n: Seq<char>) -> NodeModel {
        if self.has_name(n) {
            NodeModel {
                name: self.name,
                parent: self.parent,
                entries: self.entries.remove(self.index_of(n)),
            }
        } else {
            self
        }
    }

    /// This record with any entry named `n` replaced by one mapping `n` to
    /// `ino`, appended at the end of the listing order.
    pub open spec fn with_entry(self, n: Seq<char>, ino: u64) -> NodeModel {
        NodeModel {
            name: self.name,
            parent: self.parent,
            entries: self.without(n).entries.push((n, ino)),
        }
    }

    /// This record moved to a new name and parent, children untouched.
    pub open spec fn relabeled(self, n: Seq<char>, parent: u64) -> NodeModel {
        NodeModel { name: n, parent, entries: self.entries }
    }
}

/// With unique names, any entry bearing `n` is the one `index_of`/`ino_of`
/// speak of.
pub proof fn lemma_index_of(m: NodeModel, n: Seq<char>, i: int)
    requires
        m.names_unique(),
        0 <= i < m.entries.len(),
        m.entries[i].0 == n,
    ensures
        m.has_name(n),
        m.index_of(n) == i,
        m.ino_of(n) == m.entries[i].1,
{
    assert(m.has_name(n));
    let j = m.index_of(n);
    assert(0 <= j < m.entries.len() && m.entries[j].0 == n);
    if i < j {
        assert(m.entries[i].0 != m.entries[j].0);
    } else if j < i {
        assert(m.entries[j].0 != m.entries[i].0);
    }
}

/// How removing the entry named `n` changes what a record holds: `n` is
/// gone, every other name keeps its presence and its inode number, and
/// uniqueness is preserved.
pub proof fn lemma_without(m: NodeModel, n: Seq<char>)
    requires
        m.names_unique(),
    ensures
        m.without(n).names_unique(),
        !m.without(n).has_name(n),
        forall|x: Seq<char>| x != n ==> (m.without(n).has_name(x) <==> m.has_name(x)),
        forall|x: Seq<char>|
            x != n && m.has_name(x) ==> m.without(n).ino_of(x) == m.ino_of(x),
        m.without(n).name == m.name,
        m.without(n).parent == m.parent,
        m.has_name(n) ==> m.without(n).entries.len() == m.entries.len() - 1,
        !m.has_name(n) ==> m.without(n) == m,
{
    if m.has_name(n) {
        let idx = m.index_of(n);
        assert(0 <= idx < m.entries.len() && m.entries[idx].0 == n);
        let w = m.without(n);
        assert forall|i: int, j: int| 0 <= i < j < w.entries.len() implies w.entries[i].0
            != w.entries[j].0 by {
            let i0 = if i < idx { i } else { i + 1 };
            let j0 = if j < idx { j } else { j + 1 };
            assert(w.entries[i] == m.entries[i0]);
            assert(w.entries[j] == m.entries[j0]);
        }
        assert forall|x: Seq<char>| w.has_name(x) implies x != n && m.has_name(x) by {
            let i = choose|i: int| 0 <= i < w.entries.len() && w.entries[i].0 == x;
            let i0 = if i < idx { i } else { i + 1 };
            assert(w.entries[i] == m.entries[i0]);
            if m.entries[i0].0 == n {
                lemma_index_of(m, n, i0);
            }
        }
        assert forall|x: Seq<char>| x != n && m.has_name(x) implies w.has_name(x) by {
            let i0 = m.index_of(x);
            assert(0 <= i0 < m.entries.len() && m.entries[i0].0 == x);
            let i = if i0 < idx { i0 } else { i0 - 1 };
            assert(w.entries[i] == m.entries[i0]);
        }
        assert forall|x: Seq<char>| x != n && m.has_name(x) implies w.ino_of(x) == m.ino_of(
            x,
        ) by {
            let i0 = m.index_of(x);
            assert(0 <= i0 < m.entries.len() && m.entries[i0].0 == x);
            let i = if i0 < idx { i0 } else { i0 - 1 };
            assert(w.entries[i] == m.entries[i0]);
            lemma_index_of(w, x, i);
        }
    }
}

/// How adding the entry `(n, ino)` changes what a record holds: `n` now maps
/// to `ino`, every other name keeps its presence and its inode number, and
/// uniqueness is preserved.
pub proof fn lemma_with_entry(m: NodeModel, n: Seq<char>, ino: u64)
    requires
        m.names_unique(),
    ensures
        m.with_entry(n, ino).names_unique(),
        m.with_entry(n, ino).has_name(n),
        m.with_entry(n, ino).ino_of(n) == ino,
        forall|x: Seq<char>| x != n ==> (m.with_entry(n, ino).has_name(x) <==> m.has_name(x)),
        forall|x: Seq<char>|
            x != n && m.has_name(x) ==> m.with_entry(n, ino).ino_of(x) == m.ino_of(x),
        m.with_entry(n, ino).name == m.name,
        m.with_entry(n, ino).parent == m.parent,
{
    lemma_without(m, n);
    let b = m.without(n);
    let w = m.with_entry(n, ino);
    let last = b.entries.len() as int;
    assert(w.entries == b.entries.push((n, ino)));
    assert(w.entries[last] == (n, ino));
    assert forall|i: int, j: int| 0 <= i < j < w.entries.len() implies w.entries[i].0
        != w.entries[j].0 by {
        if j < last {
            assert(w.entries[i] == b.entries[i]);
            assert(w.entries[j] == b.entries[j]);
        } else {
            assert(w.entries[i] == b.entries[i]);
            if b.entries[i].0 == n {
                assert(b.has_name(n));
            }
        }
    }
    lemma_index_of(w, n, last);
    assert forall|x: Seq<char>| x != n && w.has_name(x) implies b.has_name(x) by {
        let i = choose|i: int| 0 <= i < w.entries.len() && w.entries[i].0 == x;
        assert(w.entries[i] == b.entries.push((n, ino))[i]);
        assert(0 <= i < b.entries.len() && b.entries[i].0 == x);
    }
    assert forall|x: Seq<char>| x != n && b.has_name(x) implies w.has_name(x) by {
        let i = choose|i: int| 0 <= i < b.entries.len() && b.entries[i].0 == x;
        assert(w.entries[i] == b.entries[i]);
    }
    assert forall|x: Seq<char>| x != n && m.has_name(x) implies w.ino_of(x) == m.ino_of(x) by {
        let i = b.index_of(x);
        assert(0 <= i < b.entries.len() && b.entries[i].0 == x);
        assert(w.entries[i] == b.entries[i]);
        lemma_index_of(w, x, i);
        lemma_index_of(b, x, i);
    }
}

/// The directory-entry record of one live inode.
#[derive(Debug, Clone)]
pub struct Inode {
    name: String,
    nodes: Vec<(String, u64)>,
    root: u64,
}

impl View for Inode {
    type V = NodeModel;

    closed spec fn view(&self) -> NodeModel {
        NodeModel {
            name: self.name@,
            parent: self.root,
            entries: Seq::new(self.nodes@.len() as nat, |i: int| (self.nodes@[i].0@, self.nodes@[i].1)),
        }
    }
}

impl Inode {
    /// Creates a record named `label` under `parent`, with no children yet.
    pub fn new_inode(label: String, parent: u64) -> (node: Inode)
        ensures
            node@ == (NodeModel { name: label@, parent, entries: Seq::empty() }),
    {
        let node = Inode { name: label, nodes: Vec::new(), root: parent };
        proof {
            assert(node@.entries =~= Seq::<(Seq<char>, u64)>::empty());
        }
        node
    }

    /// Finds the position of the child entry named `name`, if any.
    fn find_child(&self, name: &String) -> (r: Option<usize>)
        ensures
            match r {
                Some(i) => i < self@.entries.len() && self@.entries[i as int].0 == name@,
                None => !self@.has_name(name@),
            },
    {
        let mut i: usize = 0;
        while i < self.nodes.len()
            invariant
                i <= self.nodes@.len(),
                forall|j: int| 0 <= j < i ==> self@.entries[j].0 != name@,
            decreases self.nodes@.len() - i,
        {
            if self.nodes[i].0 == *name {
                return Some(i);
            }
            i = i + 1;
        }
        None
    }

    /// Looks `name` up among the children.
    pub fn child(&self, name: &String) -> (r: Option<u64>)
        requires
            self@.names_unique(),
        ensures
            r is Some <==> self@.has_name(name@),
            self@.has_name(name@) ==> r == Some(self@.ino_of(name@)),
    {
        match self.find_child(name) {
            Some(i) => {
                proof {
                    lemma_index_of(self@, name@, i as int);
                }
                Some(self.nodes[i].1)
            },
            None => None,
        }
    }

    /// Adds the child entry `(name, ino)` at the end of the listing order.
    pub fn insert_child(&mut self, name: String, ino: u64)
        requires
            !old(self)@.has_name(name@),
        ensures
            final(self)@ == old(self)@.with_entry(name@, ino),
    {
        self.nodes.push((name, ino));
        proof {
            assert(self@.entries =~= old(self)@.entries.push((name@, ino)));
        }
    }

    /// Removes the child entry named `name`, returning the inode number it
    /// mapped to.
    pub fn remove_child(&mut self, name: &String) -> (r: Option<u64>)
        requires
            old(self)@.names_unique(),
        ensures
            r is Some <==> old(self)@.has_name(name@),
            old(self)@.has_name(name@) ==> r == Some(old(self)@.ino_of(name@)),
            final(self)@ == old(self)@.without(name@),
    {
        match self.find_child(name) {
            Some(i) => {
                proof {
                    lemma_index_of(old(self)@, name@, i as int);
                }
                let entry = self.nodes.remove(i);
                proof {
                    assert(self@.entries =~= old(self)@.entries.remove(i as int));
                }
                Some(entry.1)
            },
            None => None,
        }
    }

    /// Moves the record to a new name and parent; the children stay as they
    /// are.
    pub fn relabel(&mut self, name: String, parent: u64)
        ensures
            final(self)@ == old(self)@.relabeled(name@, parent),
    {
        self.name = name;
        self.root = parent;
        proof {
            assert(self@.entries =~= old(self)@.entries);
        }
    }

    /// The number of child entries.
    pub fn child_count(&self) -> (n: usize)
        ensures
            n == self@.entries.len(),
    {
        self.nodes.len()
    }

    /// The parent inode number stored in the record.
    pub fn parent_ino(&self) -> (p: u64)
        ensures
            p == self@.parent,
    {
        self.root
    }

    /// A copy of the `i`-th child entry in listing order.
    pub fn entry_at(&self, i: usize) -> (e: (String, u64))
        requires
            i < self@.entries.len(),
        ensures
            e.0@ == self@.entries[i as int].0,
            e.1 == self@.entries[i as int].1,
    {
        let pair_name = self.nodes[i].0.clone();
        (pair_name, self.nodes[i].1)
    }
}

} // verus!
