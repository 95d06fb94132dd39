use crate::error::DatabaseError;
use crate::ident::{
    canon_id, check_object_id, generate_object_id_hex, id_equal, is_canonical_id, is_object_id,
    object_id_created_at, rfc3339_of_id,
};
use crate::media::MimeType;
use crate::text::str_equal;
use vstd::prelude::*;

verus! {

/// One catalog record: the metadata of a stored upload. The blob's bytes
/// live in the blob store under the same identifier.
pub struct FileMetadata {
    /// Canonical identifier, generated at creation, immutable thereafter.
    pub fileid: String,
    /// Client-supplied original filename, unique among all records.
    pub name: String,
    /// Byte count: zero at creation, set once after a successful write.
    pub size: usize,
    /// RFC 3339 rendering of the instant embedded in `fileid`.
    pub created_at: String,
    /// Declared content type, immutable after creation.
    pub mime: MimeType,
}

impl FileMetadata {
    pub fn duplicate(&self) -> (r: FileMetadata)
        ensures
            r == *self,
    {
        let r = FileMetadata {
            fileid: self.fileid.clone(),
            name: self.name.clone(),
            size: self.size,
            created_at: self.created_at.clone(),
            mime: self.mime.duplicate(),
        };
        proof {
            assert(r == *self);
        }
        r
    }
}

/// Whether some record in `recs` carries the identifier `key`.
pub open spec fn has_id(recs: Seq<FileMetadata>, key: Seq<char>) -> bool {
    exists|i: int| 0 <= i < recs.len() && (#[trigger] recs[i]).fileid@ == key
}

/// Whether some record in `recs` carries the filename `n`.
pub open spec fn has_name(recs: Seq<FileMetadata>, n: Seq<char>) -> bool {
    exists|i: int| 0 <= i < recs.len() && (#[trigger] recs[i]).name@ == n
}

/// Whether `r` is the record that a creation under `id`, `name` and `mime`
/// leaves behind, carrying `size` bytes.
pub open spec fn record_matches(
    r: FileMetadata,
    id: Seq<char>,
    name: Seq<char>,
    mime: MimeType,
    size: nat,
) -> bool {
    &&& r.fileid@ == id
    &&& r.name@ == name
    &&& r.mime.same_mime(mime)
    &&& r.size == size
}

/// Whether `a` is `b` with its size set to `size` and every other field kept.
pub open spec fn same_except_size(a: FileMetadata, b: FileMetadata, size: nat) -> bool {
    &&& a.fileid == b.fileid
    &&& a.name == b.name
    &&& a.created_at == b.created_at
    &&& a.mime == b.mime
    &&& a.size == size
}

/// The identifiers of the records are pairwise distinct.
pub open spec fn distinct_ids(recs: Seq<FileMetadata>) -> bool {
    forall|i: int, j: int|
        0 <= i < j < recs.len() ==> (#[trigger] recs[i]).fileid@ != (#[trigger] recs[j]).fileid@
}

/// The filenames of the records are pairwise distinct.
pub open spec fn distinct_names(recs: Seq<FileMetadata>) -> bool {
    forall|i: int, j: int|
        0 <= i < j < recs.len() ==> (#[trigger] recs[i]).name@ != (#[trigger] recs[j]).name@
}

/// Every record carries a canonical identifier.
pub open spec fn canonical_ids(recs: Seq<FileMetadata>) -> bool {
    forall|i: int| 0 <= i < recs.len() ==> is_canonical_id((#[trigger] recs[i]).fileid@)
}

/// The metadata catalog: it owns the records exclusively and hands out
/// copies. Its abstraction is the sequence of records in creation order.
pub struct FileMetadatas {
    records: Vec<FileMetadata>,
}

impl View for FileMetadatas {
    type V = Seq<FileMetadata>;

    closed spec fn view(&self) -> Seq<FileMetadata> {
        self.records@
    }
}

impl FileMetadatas {
    /// Catalog invariant: identifiers are canonical and pairwise distinct,
    /// and filenames are pairwise distinct.
    pub open spec fn wf(self) -> bool {
        &&& distinct_ids(self@)
        &&& distinct_names(self@)
        &&& canonical_ids(self@)
    }

    pub fn new() -> (c: FileMetadatas)
        ensures
            c@ == Seq::<FileMetadata>::empty(),
            c.wf(),
    {
        FileMetadatas { records: Vec::new() }
    }

    /// The index of the record carrying `key` (up to letter case), if any.
    fn index_of_id(&self, key: &str) -> (r: Option<usize>)
        requires
            self.wf(),
        ensures
            match r {
                Some(i) => 0 <= i < self@.len() && self@[i as int].fileid@ == canon_id(key@),
                None => !has_id(self@, canon_id(key@)),
            },
    {
        let n = self.records.len();
        let mut i: usize = 0;
        while i < n
            invariant
                self.wf(),
                n == self@.len(),
                0 <= i <= n,
                forall|j: int| 0 <= j < i ==> (#[trigger] self@[j]).fileid@ != canon_id(key@),
            decreases n - i,
        {
            if id_equal(self.records[i].fileid.as_str(), key) {
                proof {
                    assert(is_canonical_id(self@[i as int].fileid@));
                }
                return Some(i);
            }
            proof {
                assert(is_canonical_id(self@[i as int].fileid@));
            }
            i += 1;
        }
        None
    }

    /// The index of the record named `n`, if any.
    fn index_of_name(&self, n: &str) -> (r: Option<usize>)
        ensures
            match r {
                Some(i) => 0 <= i < self@.len() && self@[i as int].name@ == n@,
                None => !has_name(self@, n@),
            },
    {
        let len = self.records.len();
        let mut i: usize = 0;
        while i < len
            invariant
                len == self@.len(),
                0 <= i <= len,
                forall|j: int| 0 <= j < i ==> (#[trigger] self@[j]).name@ != n@,
            decreases len - i,
        {
            if str_equal(self.records[i].name.as_str(), n) {
                return Some(i);
            }
            i += 1;
        }
        None
    }

    /// Creation with the identifier already in hand, so the decision is
    /// exact: look up the name; if a record already carries it, answer
    /// nothing and leave the catalog untouched; otherwise insert a fresh
    /// record with size zero under `id` and answer `id`.
    pub fn create_with_id(&mut self, id: String, name: &String, mime: &MimeType) -> (r: Option<
        String,
    >)
        requires
            old(self).wf(),
            is_canonical_id(id@),
            !has_id(old(self)@, id@),
        ensures
            final(self).wf(),
            r is None <==> has_name(old(self)@, name@),
            r is None ==> final(self)@ == old(self)@,
            r matches Some(rid) ==> {
                &&& rid@ == id@
                &&& final(self)@.len() == old(self)@.len() + 1
                &&& final(self)@.drop_last() == old(self)@
                &&& record_matches(final(self)@.last(), id@, name@, *mime, 0)
                &&& final(self)@.last().created_at@ == rfc3339_of_id(id@)
            },
    {
        if self.index_of_name(name.as_str()).is_some() {
            return None;
        }
        proof {
            assert(canon_id(id@) == id@);
        }
        let created_at = object_id_created_at(id.as_str());
        let rec = FileMetadata {
            fileid: id.clone(),
            name: name.clone(),
            size: 0,
            created_at,
            mime: mime.duplicate(),
        };
        self.records.push(rec);
        proof {
            assert(self@.drop_last() =~= old(self)@);
            assert forall|i: int, j: int| 0 <= i < j < self@.len() implies (
            #[trigger] self@[i]).fileid@ != (#[trigger] self@[j]).fileid@ by {
                if j == self@.len() - 1 {
                    assert(!has_id(old(self)@, id@));
                    assert(old(self)@[i].fileid@ != id@);
                }
            }
            assert forall|i: int, j: int| 0 <= i < j < self@.len() implies (
            #[trigger] self@[i]).name@ != (#[trigger] self@[j]).name@ by {
                if j == self@.len() - 1 {
                    assert(!has_name(old(self)@, name@));
                    assert(old(self)@[i].name@ != name@);
                }
            }
        }
        Some(id)
    }

    /// Creation as a client sees it: look up the name; if a record already
    /// carries it, answer `None` without touching the catalog. Otherwise a
    /// fresh identifier is generated outside the catalog's control; one that
    /// collides with a stored record is a catalog failure and leaves the
    /// catalog untouched, else the record is inserted with size zero.
    pub fn create(&mut self, name: &String, mime: &MimeType) -> (r: Result<
        Option<String>,
        DatabaseError,
    >)
        requires
            old(self).wf(),
        ensures
            final(self).wf(),
            has_name(old(self)@, name@) ==> (r matches Ok(o) && o is None && final(self)@ == old(
                self,
            )@),
            !has_name(old(self)@, name@) ==> match r {
                Ok(o) => {
                    &&& o matches Some(id)
                    &&& is_canonical_id(id@)
                    &&& !has_id(old(self)@, id@)
                    &&& final(self)@.len() == old(self)@.len() + 1
                    &&& final(self)@.drop_last() == old(self)@
                    &&& record_matches(final(self)@.last(), id@, name@, *mime, 0)
                    &&& final(self)@.last().created_at@ == rfc3339_of_id(id@)
                },
                Err(e) => e == DatabaseError::ObjectIdError && final(self)@ == old(self)@,
            },
    {
        if self.index_of_name(name.as_str()).is_some() {
            return Ok(None);
        }
        let id = generate_object_id_hex();
        if self.index_of_id(id.as_str()).is_some() {
            proof {
                assert(canon_id(id@) == id@);
            }
            return Err(DatabaseError::ObjectIdError);
        }
        proof {
            assert(canon_id(id@) == id@);
        }
        let ghost idv = id@;
        let r = self.create_with_id(id, name, mime);
        proof {
            assert(r matches Some(rid) && rid@ == idv);
        }
        Ok(r)
    }

    /// Sets the stored size of the record under `id`; answers whether such a
    /// record exists. A malformed identifier reads as "not found", never as
    /// an error.
    pub fn update_size(&mut self, id: &String, size: usize) -> (r: Result<bool, DatabaseError>)
        requires
            old(self).wf(),
        ensures
            final(self).wf(),
            r matches Ok(b) && b == (is_object_id(id@) && has_id(old(self)@, canon_id(id@))),
            (is_object_id(id@) && has_id(old(self)@, canon_id(id@))) ==> {
                &&& final(self)@.len() == old(self)@.len()
                &&& forall|i: int|
                    0 <= i < old(self)@.len() && (#[trigger] old(self)@[i]).fileid@ != canon_id(
                        id@,
                    ) ==> final(self)@[i] == old(self)@[i]
                &&& forall|i: int|
                    0 <= i < old(self)@.len() && (#[trigger] old(self)@[i]).fileid@ == canon_id(
                        id@,
                    ) ==> same_except_size(final(self)@[i], old(self)@[i], size as nat)
            },
            !(is_object_id(id@) && has_id(old(self)@, canon_id(id@))) ==> final(self)@ == old(
                self,
            )@,
    {
        if !check_object_id(id.as_str()) {
            return Ok(false);
        }
        match self.index_of_id(id.as_str()) {
            Some(i) => {
                self.records[i].size = size;
                proof {
                    assert forall|p: int, q: int| 0 <= p < q < self@.len() implies (
                    #[trigger] self@[p]).fileid@ != (#[trigger] self@[q]).fileid@ by {
                        assert(old(self)@[p].fileid@ != old(self)@[q].fileid@);
                    }
                    assert forall|p: int, q: int| 0 <= p < q < self@.len() implies (
                    #[trigger] self@[p]).name@ != (#[trigger] self@[q]).name@ by {
                        assert(old(self)@[p].name@ != old(self)@[q].name@);
                    }
                    assert forall|p: int| 0 <= p < self@.len() implies is_canonical_id(
                        (#[trigger] self@[p]).fileid@,
                    ) by {
                        assert(is_canonical_id(old(self)@[p].fileid@));
                    }
                    assert forall|p: int|
                        0 <= p < old(self)@.len() && (#[trigger] old(self)@[p]).fileid@ == canon_id(
                            id@,
                        ) implies same_except_size(self@[p], old(self)@[p], size as nat) by {
                        if p != i {
                            assert(old(self)@[p].fileid@ != old(self)@[i as int].fileid@);
                        }
                    }
                }
                Ok(true)
            },
            None => Ok(false),
        }
    }

    /// Looks a record up by identifier; a malformed identifier reads as
    /// "not found", never as an error. The caller receives a copy.
    pub fn get(&self, id: &String) -> (r: Result<Option<FileMetadata>, DatabaseError>)
        requires
            self.wf(),
        ensures
            r matches Ok(o) && {
                &&& (o is Some <==> is_object_id(id@) && has_id(self@, canon_id(id@)))
                &&& (o matches Some(rec) ==> exists|i: int|
                    0 <= i < self@.len() && (#[trigger] self@[i]).fileid@ == canon_id(id@) && rec
                        == self@[i])
            },
    {
        if !check_object_id(id.as_str()) {
            return Ok(None);
        }
        match self.index_of_id(id.as_str()) {
            Some(i) => Ok(Some(self.records[i].duplicate())),
            None => Ok(None),
        }
    }

    /// Hands out a copy of every record, in creation order.
    pub fn list(&self) -> (r: Result<Vec<FileMetadata>, DatabaseError>)
        ensures
            r matches Ok(v) && v@ == self@,
    {
        let n = self.records.len();
        let mut out: Vec<FileMetadata> = Vec::new();
        let mut i: usize = 0;
        while i < n
            invariant
                n == self@.len(),
                0 <= i <= n,
                out@ == self@.subrange(0, i as int),
            decreases n - i,
        {
            out.push(self.records[i].duplicate());
            proof {
                assert(out@ =~= self@.subrange(0, i + 1 as int));
            }
            i += 1;
        }
        proof {
            assert(out@ =~= self@);
        }
        Ok(out)
    }

    /// Removes the record under `id` and answers whether one existed. A
    /// malformed identifier reads as "not found", never as an error.
    pub fn delete(&mut self, id: &String) -> (r: Result<bool, DatabaseError>)
        requires
            old(self).wf(),
        ensures
            final(self).wf(),
            r matches Ok(b) && b == (is_object_id(id@) && has_id(old(self)@, canon_id(id@))),
            (is_object_id(id@) && has_id(old(self)@, canon_id(id@))) ==> exists|i: int|
                0 <= i < old(self)@.len() && (#[trigger] old(self)@[i]).fileid@ == canon_id(id@)
                    && final(self)@ == old(self)@.remove(i),
            !(is_object_id(id@) && has_id(old(self)@, canon_id(id@))) ==> final(self)@ == old(
                self,
            )@,
            !has_id(final(self)@, canon_id(id@)),
    {
        if !check_object_id(id.as_str()) {
            proof {
                if has_id(self@, canon_id(id@)) {
                    let i = choose|i: int|
                        0 <= i < self@.len() && (#[trigger] self@[i]).fileid@ == canon_id(id@);
                    assert(is_canonical_id(self@[i].fileid@));
                    crate::ident::lemma_canon_id_reflects_form(id@);
                }
            }
            return Ok(false);
        }
        match self.index_of_id(id.as_str()) {
            Some(i) => {
                self.records.remove(i);
                proof {
                    let oldr = old(self)@;
                    assert forall|p: int, q: int| 0 <= p < q < self@.len() implies (
                    #[trigger] self@[p]).fileid@ != (#[trigger] self@[q]).fileid@ by {
                        let p0: int = if p < i { p } else { p + 1 };
                        let q0: int = if q < i { q } else { q + 1 };
                        assert(self@[p] == oldr[p0]);
                        assert(self@[q] == oldr[q0]);
                        assert(oldr[p0].fileid@ != oldr[q0].fileid@);
                    }
                    assert forall|p: int, q: int| 0 <= p < q < self@.len() implies (
                    #[trigger] self@[p]).name@ != (#[trigger] self@[q]).name@ by {
                        let p0: int = if p < i { p } else { p + 1 };
                        let q0: int = if q < i { q } else { q + 1 };
                        assert(self@[p] == oldr[p0]);
                        assert(self@[q] == oldr[q0]);
                        assert(oldr[p0].name@ != oldr[q0].name@);
                    }
                    assert forall|p: int| 0 <= p < self@.len() implies is_canonical_id(
                        (#[trigger] self@[p]).fileid@,
                    ) by {
                        let p0: int = if p < i { p } else { p + 1 };
                        assert(self@[p] == oldr[p0]);
                        assert(is_canonical_id(oldr[p0].fileid@));
                    }
                    assert forall|p: int| 0 <= p < self@.len() implies (
                    #[trigger] self@[p]).fileid@ != canon_id(id@) by {
                        let p0: int = if p < i { p } else { p + 1 };
                        assert(self@[p] == oldr[p0]);
                        if p0 != i {
                            if p0 < i {
                                assert(oldr[p0].fileid@ != oldr[i as int].fileid@);
                            } else {
                                assert(oldr[i as int].fileid@ != oldr[p0].fileid@);
                            }
                        }
                    }
                }
                Ok(true)
            },
            None => Ok(false),
        }
    }
}

} // verus!
