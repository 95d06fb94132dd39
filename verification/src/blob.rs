use crate::text::str_equal;
use vstd::prelude::*;

verus! {

/// One stored blob: a finalized byte sequence addressed by an identifier.
/// Content is immutable once the blob is in the store.
pub struct Blob {
    pub id: String,
    pub bytes: Vec<u8>,
}

/// Whether some blob in `s` is addressed by `key`.
pub open spec fn blob_has(s: Seq<Blob>, key: Seq<char>) -> bool {
    exists|i: int| 0 <= i < s.len() && (#[trigger] s[i]).id@ == key
}

/// An exclusively-owned, single-writer sink for one blob's bytes. The handle
/// is linear: each write consumes it and hands a successor back, so no two
/// writers ever append to the same blob.
pub struct WriteHandle {
    id: String,
    buf: Vec<u8>,
}

impl WriteHandle {
    /// The identifier this handle writes under.
    pub closed spec fn id_spec(self) -> Seq<char> {
        self.id@
    }

    /// The bytes appended so far, in arrival order.
    pub closed spec fn bytes_spec(self) -> Seq<u8> {
        self.buf@
    }

    /// The running byte count.
    pub fn size(&self) -> (n: usize)
        ensures
            n == self.bytes_spec().len(),
    {
        self.buf.len()
    }

    /// Appends one chunk after everything written before; the successor
    /// handle owns the sink alone.
    pub fn write_chunk(self, chunk: &[u8]) -> (h: WriteHandle)
        ensures
            h.id_spec() == self.id_spec(),
            h.bytes_spec() == self.bytes_spec() + chunk@,
    {
        let mut buf = self.buf;
        let ghost prefix = buf@;
        let n = chunk.len();
        let mut k: usize = 0;
        while k < n
            invariant
                n == chunk@.len(),
                0 <= k <= n,
                buf@ == prefix + chunk@.subrange(0, k as int),
            decreases n - k,
        {
            buf.push(chunk[k]);
            proof {
                assert(buf@ =~= prefix + chunk@.subrange(0, k + 1 as int));
            }
            k += 1;
        }
        proof {
            assert(prefix + chunk@.subrange(0, n as int) =~= prefix + chunk@);
        }
        WriteHandle { id: self.id, buf }
    }
}

/// The blob store: byte sequences addressed by identifier, written once
/// through a linear handle, read many times, deleted once.
pub struct BlobStore {
    entries: Vec<Blob>,
}

impl View for BlobStore {
    type V = Seq<Blob>;

    closed spec fn view(&self) -> Seq<Blob> {
        self.entries@
    }
}

impl BlobStore {
    /// Store invariant: identifiers are pairwise distinct.
    pub open spec fn wf(self) -> bool {
        forall|i: int, j: int|
            0 <= i < j < self@.len() ==> (#[trigger] self@[i]).id@ != (#[trigger] self@[j]).id@
    }

    pub fn new() -> (s: BlobStore)
        ensures
            s@ == Seq::<Blob>::empty(),
            s.wf(),
    {
        BlobStore { entries: Vec::new() }
    }

    /// Opens a new, empty, exclusively-owned sink at `id`. Nothing is stored
    /// until the handle is finalized.
    pub fn open_for_write(&self, id: &String) -> (h: WriteHandle)
        ensures
            h.id_spec() == id@,
            h.bytes_spec() == Seq::<u8>::empty(),
    {
        WriteHandle { id: id.clone(), buf: Vec::new() }
    }

    /// Installs the handle's bytes durably under its identifier; from here on
    /// the blob is complete and immutable.
    pub fn finalize(&mut self, h: WriteHandle)
        requires
            old(self).wf(),
            !blob_has(old(self)@, h.id_spec()),
        ensures
            final(self).wf(),
            final(self)@.len() == old(self)@.len() + 1,
            final(self)@.drop_last() == old(self)@,
            final(self)@.last().id@ == h.id_spec(),
            final(self)@.last().bytes@ == h.bytes_spec(),
    {
        self.entries.push(Blob { id: h.id, bytes: h.buf });
        proof {
            assert(self@.drop_last() =~= old(self)@);
            assert forall|i: int, j: int| 0 <= i < j < self@.len() implies (
            #[trigger] self@[i]).id@ != (#[trigger] self@[j]).id@ by {
                if j == self@.len() - 1 {
                    assert(!blob_has(old(self)@, h.id_spec()));
                    assert(old(self)@[i].id@ != h.id_spec());
                }
            }
        }
    }

    /// Opens the blob at `id` for reading; answers nothing if no such blob
    /// exists.
    pub fn open_for_read(&self, id: &String) -> (r: Option<&Vec<u8>>)
        ensures
            r is Some <==> blob_has(self@, id@),
            r matches Some(v) ==> exists|i: int|
                0 <= i < self@.len() && (#[trigger] self@[i]).id@ == id@ && v@ == self@[i].bytes@,
    {
        let n = self.entries.len();
        let mut i: usize = 0;
        while i < n
            invariant
                n == self@.len(),
                0 <= i <= n,
                forall|j: int| 0 <= j < i ==> (#[trigger] self@[j]).id@ != id@,
            decreases n - i,
        {
            if str_equal(self.entries[i].id.as_str(), id.as_str()) {
                return Some(&self.entries[i].bytes);
            }
            i += 1;
        }
        None
    }

    /// Removes the blob at `id` and answers whether one existed.
    pub fn delete(&mut self, id: &String) -> (r: bool)
        requires
            old(self).wf(),
        ensures
            final(self).wf(),
            r == blob_has(old(self)@, id@),
            r ==> exists|i: int|
                0 <= i < old(self)@.len() && (#[trigger] old(self)@[i]).id@ == id@ && final(self)@
                    == old(self)@.remove(i),
            !r ==> final(self)@ == old(self)@,
            !blob_has(final(self)@, id@),
    {
        let n = self.entries.len();
        let mut i: usize = 0;
        while i < n
            invariant
                old(self) == self,
                self.wf(),
                n == self@.len(),
                0 <= i <= n,
                forall|j: int| 0 <= j < i ==> (#[trigger] self@[j]).id@ != id@,
            decreases n - i,
        {
            if str_equal(self.entries[i].id.as_str(), id.as_str()) {
                self.entries.remove(i);
                proof {
                    let oldr = old(self)@;
                    assert forall|p: int, q: int| 0 <= p < q < self@.len() implies (
                    #[trigger] self@[p]).id@ != (#[trigger] self@[q]).id@ by {
                        let p0: int = if p < i { p } else { p + 1 };
                        let q0: int = if q < i { q } else { q + 1 };
                        assert(self@[p] == oldr[p0]);
                        assert(self@[q] == oldr[q0]);
                        assert(oldr[p0].id@ != oldr[q0].id@);
                    }
                    assert forall|p: int| 0 <= p < self@.len() implies (#[trigger] self@[p]).id@
                        != id@ by {
                        let p0: int = if p < i { p } else { p + 1 };
                        assert(self@[p] == oldr[p0]);
                        if p0 != i {
                            if p0 < i {
                                assert(oldr[p0].id@ != oldr[i as int].id@);
                            } else {
                                assert(oldr[i as int].id@ != oldr[p0].id@);
                            }
                        }
                    }
                }
                return true;
            }
            i += 1;
        }
        false
    }
}

} // verus!
