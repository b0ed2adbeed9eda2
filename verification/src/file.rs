//! File bodies: a resizable byte vector per regular file, with the edit
//! primitive applied by `write` and the truncate primitive applied by
//! `setattr`.
use vstd::prelude::*;

verus! {

/// A sequence of `n` zero bytes.
pub open spec fn zeros(n: nat) -> Seq<u8> {
    Seq::new(n, |i: int| 0u8)
}

/// What the edit primitive leaves in a body: writing past the end extends
/// the body with zero bytes up to `off` and appends `data`; writing at an
/// interior offset whose end would pass the current length replaces the
/// suffix from `off` with `data`; writing wholly inside the body *inserts*
/// `data` at `off` without removing existing bytes.
pub open spec fn spec_update(body: Seq<u8>, off: int, data: Seq<u8>) -> Seq<u8> {
    if off >= body.len() {
        body + zeros((off - body.len()) as nat) + data
    } else if off + data.len() > body.len() {
        body.subrange(0, off) + data
    } else {
        body.subrange(0, off) + data + body.subrange(off, body.len() as int)
    }
}

/// What the truncate primitive leaves in a body: the first `n` bytes, or the
/// whole body unchanged when `n` is not below its length (no zero-fill on
/// truncate-grow).
pub open spec fn spec_truncate(body: Seq<u8>, n: int) -> Seq<u8> {
    if n <= body.len() {
        body.subrange(0, n)
    } else {
        body
    }
}

/// What `read` yields from a body: the bytes from `off` through the end, or
/// the empty sequence when `off` is at or past the end.
pub open spec fn spec_read_from(body: Seq<u8>, off: int) -> Seq<u8> {
    if off >= body.len() {
        Seq::empty()
    } else {
        body.subrange(off, body.len() as int)
    }
}

/// The contents of one regular file.
#[derive(Debug, Clone, Default)]
pub struct File {
    data: Vec<u8>,
}

impl View for File {
    type V = Seq<u8>;

    closed spec fn view(&self) -> Seq<u8> {
        self.data@
    }
}

impl File {
    /// Creates an empty file body.
    pub fn new_file() -> (f: File)
        ensures
            f@ == Seq::<u8>::empty(),
    {
        File { data: Vec::new() }
    }

    /// Returns the number of bytes of data in the file.
    pub fn get_file_size(&self) -> (n: u64)
        ensures
            n == self@.len(),
    {
        self.data.len() as u64
    }

    /// Applies the edit primitive at `offset` with `append_data` and returns
    /// the number of bytes taken from `append_data`.
    pub fn update_file(&mut self, offset: i64, append_data: &[u8]) -> (n: u64)
        requires
            0 <= offset,
            offset + append_data@.len() <= usize::MAX,
            old(self)@.len() + append_data@.len() <= usize::MAX,
        ensures
            final(self)@ == spec_update(old(self)@, offset as int, append_data@),
            n == append_data@.len(),
    {
        let off = offset as usize;
        let ghost body = self.data@;
        if off >= self.data.len() {
            while self.data.len() < off
                invariant
                    body.len() <= self.data@.len() <= off,
                    self.data@ == body + zeros((self.data@.len() - body.len()) as nat),
                decreases off - self.data@.len(),
            {
                self.data.push(0);
                proof {
                    assert(self.data@ =~= body + zeros((self.data@.len() - body.len()) as nat));
                }
            }
            self.push_all(append_data);
            proof {
                assert(self.data@ =~= body + zeros((off - body.len()) as nat) + append_data@);
            }
        } else if off + append_data.len() > self.data.len() {
            self.data.truncate(off);
            self.push_all(append_data);
            proof {
                assert(self.data@ =~= body.subrange(0, off as int) + append_data@);
            }
        } else {
            let mut out: Vec<u8> = Vec::new();
            let mut i: usize = 0;
            while i < off
                invariant
                    i <= off,
                    off <= self.data@.len(),
                    self.data@ == body,
                    out@ == body.subrange(0, i as int),
                decreases off - i,
            {
                out.push(self.data[i]);
                i = i + 1;
                proof {
                    assert(out@ =~= body.subrange(0, i as int));
                }
            }
            let mut j: usize = 0;
            while j < append_data.len()
                invariant
                    j <= append_data@.len(),
                    off <= self.data@.len(),
                    self.data@ == body,
                    out@ == body.subrange(0, off as int) + append_data@.subrange(0, j as int),
                decreases append_data@.len() - j,
            {
                out.push(append_data[j]);
                j = j + 1;
                proof {
                    assert(out@ =~= body.subrange(0, off as int) + append_data@.subrange(
                        0,
                        j as int,
                    ));
                }
            }
            proof {
                assert(append_data@.subrange(0, append_data@.len() as int) =~= append_data@);
            }
            let mut k: usize = off;
            while k < self.data.len()
                invariant
                    off <= k <= self.data@.len(),
                    self.data@ == body,
                    out@ == body.subrange(0, off as int) + append_data@ + body.subrange(
                        off as int,
                        k as int,
                    ),
                decreases self.data@.len() - k,
            {
                out.push(self.data[k]);
                k = k + 1;
                proof {
                    assert(out@ =~= body.subrange(0, off as int) + append_data@ + body.subrange(
                        off as int,
                        k as int,
                    ));
                }
            }
            proof {
                assert(body.subrange(off as int, body.len() as int) =~= body.subrange(
                    off as int,
                    self.data@.len() as int,
                ));
            }
            self.data = out;
        }
        append_data.len() as u64
    }

    /// Shortens the body to its first `size` bytes; a `size` at or past the
    /// current length leaves the body unchanged.
    pub fn truncate_bytes(&mut self, size: u64)
        ensures
            final(self)@ == spec_truncate(old(self)@, size as int),
    {
        if size < self.data.len() as u64 {
            self.data.truncate(size as usize);
        }
        proof {
            if size >= old(self)@.len() {
                assert(self@ =~= spec_truncate(old(self)@, size as int));
            }
        }
    }

    /// Copies the bytes from `offset` through the end of the body; an
    /// `offset` at or past the end yields an empty vector.
    pub fn read_from(&self, offset: i64) -> (out: Vec<u8>)
        requires
            0 <= offset,
        ensures
            out@ == spec_read_from(self@, offset as int),
    {
        let mut out: Vec<u8> = Vec::new();
        if (offset as u64) < self.data.len() as u64 {
            let mut k: usize = offset as usize;
            while k < self.data.len()
                invariant
                    0 <= offset <= k <= self.data@.len(),
                    out@ == self.data@.subrange(offset as int, k as int),
                decreases self.data@.len() - k,
            {
                out.push(self.data[k]);
                k = k + 1;
                proof {
                    assert(out@ =~= self.data@.subrange(offset as int, k as int));
                }
            }
        }
        out
    }

    /// Appends every byte of `bytes` to the body.
    fn push_all(&mut self, bytes: &[u8])
        requires
            old(self)@.len() + bytes@.len() <= usize::MAX,
        ensures
            final(self)@ == old(self)@ + bytes@,
    {
        let mut j: usize = 0;
        while j < bytes.len()
            invariant
                j <= bytes@.len(),
                self.data@ == old(self)@ + bytes@.subrange(0, j as int),
            decreases bytes@.len() - j,
        {
            self.data.push(bytes[j]);
            j = j + 1;
            proof {
                assert(self.data@ =~= old(self)@ + bytes@.subrange(0, j as int));
            }
        }
        proof {
            assert(old(self)@ + bytes@.subrange(0, bytes@.len() as int) =~= old(self)@ + bytes@);
        }
    }
}

/// Writing at offset 0 replaces the whole body with `data` whenever the edit
/// primitive is in one of its overwrite cases: on an empty body, or with a
/// payload longer than the body.  (With a non-empty body and a payload no
/// longer than it, the primitive inserts instead: writing `[2]` at offset 0
/// of `[1]` leaves `[2, 1]`.)
pub proof fn lemma_update_overwrite(body: Seq<u8>, data: Seq<u8>)
    requires
        body.len() == 0 || data.len() > body.len(),
    ensures
        spec_update(body, 0, data) =~= data,
        spec_read_from(spec_update(body, 0, data), 0) =~= data,
{
}

/// Writing past the end zero-fills the gap: the result keeps the old body,
/// holds zero bytes over `[body.len(), off)`, and ends with `data`.
pub proof fn lemma_update_past_end(body: Seq<u8>, off: int, data: Seq<u8>)
    requires
        off >= body.len(),
    ensures
        spec_update(body, off, data).len() == off + data.len(),
        spec_update(body, off, data).subrange(0, body.len() as int) =~= body,
        forall|i: int|
            body.len() <= i < off ==> #[trigger] spec_update(body, off, data)[i] == 0u8,
        spec_update(body, off, data).subrange(off, off + data.len()) =~= data,
{
}

} // verus!
