use crate::blob::{blob_has, Blob, BlobStore};
use crate::catalog::{has_id, has_name, record_matches, FileMetadata, FileMetadatas};
use crate::error::{DatabaseError, FileHandlingError};
use crate::ident::{canon_id, is_canonical_id, is_object_id, rfc3339_of_id};
use crate::media::MimeType;
use crate::text::str_equal;
use vstd::prelude::*;

verus! {

/// One decoded multipart field: its form name, the filename and content type
/// declared in its headers, and its byte chunks in arrival order.
pub struct MultipartField {
    pub name: String,
    pub filename: Option<String>,
    pub content_type: Option<MimeType>,
    pub chunks: Vec<Vec<u8>>,
}

/// No field of the payload is named `data`.
pub open spec fn no_data_field(fields: Seq<MultipartField>) -> bool {
    forall|i: int| 0 <= i < fields.len() ==> (#[trigger] fields[i]).name@ != "data"@
}

/// `i` is the index of the first field named `data`.
pub open spec fn is_first_data(fields: Seq<MultipartField>, i: int) -> bool {
    &&& 0 <= i < fields.len()
    &&& fields[i].name@ == "data"@
    &&& forall|j: int| 0 <= j < i ==> (#[trigger] fields[j]).name@ != "data"@
}

/// The bytes of the chunks laid end to end, in arrival order.
pub open spec fn flat(chunks: Seq<Vec<u8>>) -> Seq<u8>
    decreases chunks.len(),
{
    if chunks.len() == 0 {
        Seq::empty()
    } else {
        flat(chunks.drop_last()) + chunks.last()@
    }
}

proof fn lemma_flat_snoc(chunks: Seq<Vec<u8>>, k: int)
    requires
        0 <= k < chunks.len(),
    ensures
        flat(chunks.subrange(0, k + 1)) == flat(chunks.subrange(0, k)) + chunks[k]@,
{
    let s = chunks.subrange(0, k + 1);
    assert(s.drop_last() =~= chunks.subrange(0, k));
    assert(s.last() == chunks[k]);
}

proof fn lemma_first_data_unique(fields: Seq<MultipartField>, i: int, k: int)
    requires
        is_first_data(fields, i),
        is_first_data(fields, k),
    ensures
        i == k,
{
    if i < k {
        assert(fields[i].name@ != "data"@);
        assert(false);
    } else if k < i {
        assert(fields[k].name@ != "data"@);
        assert(false);
    }
}

/// The cross-store invariant: every blob is reachable through a catalog
/// record under the same identifier, and a record whose size is set points
/// at a fully written blob of exactly that many bytes. A record may stand
/// with size zero while its blob is still to come.
pub open spec fn consistent(cat: Seq<FileMetadata>, blobs: Seq<Blob>) -> bool {
    &&& forall|j: int| 0 <= j < blobs.len() ==> has_id(cat, (#[trigger] blobs[j]).id@)
    &&& forall|i: int|
        0 <= i < cat.len() && (#[trigger] cat[i]).size > 0 ==> exists|j: int|
            0 <= j < blobs.len() && (#[trigger] blobs[j]).id@ == cat[i].fileid@
                && blobs[j].bytes@.len() == cat[i].size
}

/// What a completed ingestion leaves behind: one fresh record carrying the
/// filename, the declared content type and the exact byte count, and one
/// blob of exactly the submitted bytes, both under the new identifier.
pub open spec fn accepted_upload(
    cat0: Seq<FileMetadata>,
    blobs0: Seq<Blob>,
    name: Seq<char>,
    m: MimeType,
    chunks: Seq<Vec<u8>>,
    cat1: Seq<FileMetadata>,
    blobs1: Seq<Blob>,
    id: Seq<char>,
) -> bool {
    &&& is_canonical_id(id)
    &&& !has_id(cat0, id)
    &&& cat1.len() == cat0.len() + 1
    &&& cat1.drop_last() == cat0
    &&& record_matches(cat1.last(), id, name, m, flat(chunks).len())
    &&& blobs1.len() == blobs0.len() + 1
    &&& blobs1.drop_last() == blobs0
    &&& blobs1.last().id@ == id
    &&& blobs1.last().bytes@ == flat(chunks)
}

/// How the first `data` field is decided: a missing filename or
/// content type is rejection; a content type off the allow-list is
/// rejection before anything is stored; a taken name is a conflict; else
/// the upload is accepted in full, unless the identifier handed to the
/// catalog was unusable.
pub open spec fn upload_field_outcome(
    cat0: Seq<FileMetadata>,
    blobs0: Seq<Blob>,
    f: MultipartField,
    cat1: Seq<FileMetadata>,
    blobs1: Seq<Blob>,
    r: Result<String, FileHandlingError>,
) -> bool {
    match (f.filename, f.content_type) {
        (Some(name), Some(m)) => {
            if !m.admitted() {
                r == Err::<String, FileHandlingError>(FileHandlingError::UnsupportedMediaType)
            } else if has_name(cat0, name@) {
                r == Err::<String, FileHandlingError>(FileHandlingError::FileExists)
            } else {
                match r {
                    Ok(id) => accepted_upload(cat0, blobs0, name@, m, f.chunks@, cat1, blobs1, id@),
                    Err(e) => e == FileHandlingError::DatabaseError(DatabaseError::ObjectIdError),
                }
            }
        },
        _ => r == Err::<String, FileHandlingError>(FileHandlingError::RequiredFieldNotFound),
    }
}

/// The whole ingestion decision: a failed request leaves both stores exactly
/// as they were; a payload with no `data` field is rejected; otherwise the
/// first `data` field is decided as `upload_field_outcome` says.
pub open spec fn upload_outcome(
    cat0: Seq<FileMetadata>,
    blobs0: Seq<Blob>,
    fields: Seq<MultipartField>,
    cat1: Seq<FileMetadata>,
    blobs1: Seq<Blob>,
    r: Result<String, FileHandlingError>,
) -> bool {
    &&& (r is Err ==> cat1 == cat0 && blobs1 == blobs0)
    &&& (no_data_field(fields) ==> r == Err::<String, FileHandlingError>(
        FileHandlingError::RequiredFieldNotFound,
    ))
    &&& forall|i: int|
        is_first_data(fields, i) ==> upload_field_outcome(
            cat0,
            blobs0,
            #[trigger] fields[i],
            cat1,
            blobs1,
            r,
        )
}

/// Finds the first field named `data`, if any.
fn find_data_field(fields: &Vec<MultipartField>) -> (r: Option<usize>)
    ensures
        match r {
            Some(i) => is_first_data(fields@, i as int),
            None => no_data_field(fields@),
        },
{
    let n = fields.len();
    let mut i: usize = 0;
    while i < n
        invariant
            n == fields@.len(),
            0 <= i <= n,
            forall|j: int| 0 <= j < i ==> (#[trigger] fields@[j]).name@ != "data"@,
        decreases n - i,
    {
        if str_equal(fields[i].name.as_str(), "data") {
            return Some(i);
        }
        i += 1;
    }
    None
}

/// Drives one upload end to end: find the `data` field (every other field is
/// drained unread), validate it, reserve a record in the catalog, stream the
/// chunks into the blob store one at a time, finalize the blob, and set the
/// record's size last.
pub fn upload_file(
    catalog: &mut FileMetadatas,
    blobs: &mut BlobStore,
    fields: &Vec<MultipartField>,
) -> (r: Result<String, FileHandlingError>)
    requires
        old(catalog).wf(),
        old(blobs).wf(),
        consistent(old(catalog)@, old(blobs)@),
    ensures
        final(catalog).wf(),
        final(blobs).wf(),
        consistent(final(catalog)@, final(blobs)@),
        upload_outcome(old(catalog)@, old(blobs)@, fields@, final(catalog)@, final(blobs)@, r),
        r matches Ok(id) ==> final(catalog)@.last().created_at@ == rfc3339_of_id(id@),
{
    let ghost cat0 = old(catalog)@;
    let ghost b0 = old(blobs)@;
    let idx: usize;
    match find_data_field(fields) {
        Some(i) => {
            idx = i;
        },
        None => {
            proof {
                assert forall|k: int| is_first_data(fields@, k) implies upload_field_outcome(
                    cat0,
                    b0,
                    #[trigger] fields@[k],
                    cat0,
                    b0,
                    Err::<String, FileHandlingError>(FileHandlingError::RequiredFieldNotFound),
                ) by {
                    assert(fields@[k].name@ == "data"@);
                    assert(false);
                }
            }
            return Err(FileHandlingError::RequiredFieldNotFound);
        },
    }
    let field: &MultipartField = &fields[idx];
    let ghost fi = idx as int;
    let name = match &field.filename {
        Some(nm) => nm,
        None => {
            proof {
                upload_finish_proof(
                    cat0,
                    b0,
                    fields@,
                    fi,
                    cat0,
                    b0,
                    Err::<String, FileHandlingError>(FileHandlingError::RequiredFieldNotFound),
                );
            }
            return Err(FileHandlingError::RequiredFieldNotFound);
        },
    };
    let m = match &field.content_type {
        Some(m) => m,
        None => {
            proof {
                upload_finish_proof(
                    cat0,
                    b0,
                    fields@,
                    fi,
                    cat0,
                    b0,
                    Err::<String, FileHandlingError>(FileHandlingError::RequiredFieldNotFound),
                );
            }
            return Err(FileHandlingError::RequiredFieldNotFound);
        },
    };
    if !m.is_admitted() {
        proof {
            upload_finish_proof(
                cat0,
                b0,
                fields@,
                fi,
                cat0,
                b0,
                Err::<String, FileHandlingError>(FileHandlingError::UnsupportedMediaType),
            );
        }
        return Err(FileHandlingError::UnsupportedMediaType);
    }
    let id = match catalog.create(name, m) {
        Ok(Some(id)) => id,
        Ok(None) => {
            proof {
                assert(has_name(cat0, name@));
                upload_finish_proof(
                    cat0,
                    b0,
                    fields@,
                    fi,
                    cat0,
                    b0,
                    Err::<String, FileHandlingError>(FileHandlingError::FileExists),
                );
            }
            return Err(FileHandlingError::FileExists);
        },
        Err(e) => {
            proof {
                assert(!has_name(cat0, name@));
                upload_finish_proof(
                    cat0,
                    b0,
                    fields@,
                    fi,
                    cat0,
                    b0,
                    Err::<String, FileHandlingError>(FileHandlingError::DatabaseError(e)),
                );
            }
            return Err(FileHandlingError::DatabaseError(e));
        },
    };
    let ghost cat1 = catalog@;
    proof {
        if blob_has(b0, id@) {
            let j = choose|j: int| 0 <= j < b0.len() && (#[trigger] b0[j]).id@ == id@;
            assert(has_id(cat0, b0[j].id@));
            assert(false);
        }
    }
    let mut h = blobs.open_for_write(&id);
    let nchunks = field.chunks.len();
    let mut k: usize = 0;
    while k < nchunks
        invariant
            nchunks == field.chunks@.len(),
            0 <= k <= nchunks,
            h.id_spec() == id@,
            h.bytes_spec() == flat(field.chunks@.subrange(0, k as int)),
        decreases nchunks - k,
    {
        h = h.write_chunk(field.chunks[k].as_slice());
        proof {
            lemma_flat_snoc(field.chunks@, k as int);
        }
        k += 1;
    }
    proof {
        assert(field.chunks@.subrange(0, nchunks as int) =~= field.chunks@);
    }
    let size = h.size();
    blobs.finalize(h);
    let ghost b1 = blobs@;
    let _ = match catalog.update_size(&id, size) {
        Ok(b) => b,
        Err(_) => false,
    };
    proof {
        let cat2 = catalog@;
        assert(cat1.last().fileid@ == id@);
        assert(has_id(cat1, canon_id(id@)));
        assert forall|p: int| 0 <= p < cat0.len() implies cat2[p] == cat0[p] by {
            assert(cat1[p] == cat0[p]);
            assert(cat0[p].fileid@ != id@);
        }
        assert(cat2.drop_last() =~= cat0);
        assert(crate::catalog::same_except_size(cat2.last(), cat1.last(), size as nat));
        // the blob ends up reachable through the new record
        assert forall|j: int| 0 <= j < b1.len() implies has_id(cat2, (#[trigger] b1[j]).id@) by {
            if j < b0.len() {
                assert(b1[j] == b0[j]);
                assert(has_id(cat0, b0[j].id@));
                let p = choose|p: int|
                    0 <= p < cat0.len() && (#[trigger] cat0[p]).fileid@ == b0[j].id@;
                assert(cat2[p] == cat0[p]);
                assert(has_id(cat2, b0[j].id@));
            } else {
                assert(b1[j] == b1.last());
                assert(cat2[cat2.len() - 1].fileid@ == id@);
                assert(has_id(cat2, id@));
            }
        }
        assert forall|p: int|
            0 <= p < cat2.len() && (#[trigger] cat2[p]).size > 0 implies exists|j: int|
                0 <= j < b1.len() && (#[trigger] b1[j]).id@ == cat2[p].fileid@
                    && b1[j].bytes@.len() == cat2[p].size by {
            if p < cat0.len() {
                assert(cat2[p] == cat0[p]);
                let q = choose|q: int|
                    0 <= q < b0.len() && (#[trigger] b0[q]).id@ == cat0[p].fileid@
                        && b0[q].bytes@.len() == cat0[p].size;
                assert(b1[q] == b0[q]);
            } else {
                let j = b1.len() - 1;
                assert(b1[j].id@ == cat2[p].fileid@);
                assert(b1[j].bytes@.len() == cat2[p].size);
            }
        }
        assert(accepted_upload(cat0, b0, name@, *m, field.chunks@, cat2, b1, id@));
        assert(!has_name(cat0, name@));
        upload_finish_proof(cat0, b0, fields@, fi, cat2, b1, Ok::<String, FileHandlingError>(id));
    }
    Ok(id)
}

fn copy_bytes(v: &Vec<u8>) -> (r: Vec<u8>)
    ensures
        r@ == v@,
{
    let n = v.len();
    let mut out: Vec<u8> = Vec::new();
    let mut i: usize = 0;
    while i < n
        invariant
            n == v@.len(),
            0 <= i <= n,
            out@ == v@.subrange(0, i as int),
        decreases n - i,
    {
        out.push(v[i]);
        proof {
            assert(out@ =~= v@.subrange(0, i + 1 as int));
        }
        i += 1;
    }
    proof {
        assert(out@ =~= v@);
    }
    out
}

/// Serves a stored upload back: the record and the blob's bytes, exactly as
/// ingested. An unknown, malformed or blob-less identifier reads as not
/// found.
pub fn get_file(catalog: &FileMetadatas, blobs: &BlobStore, id: &String) -> (r: Result<
    (FileMetadata, Vec<u8>),
    FileHandlingError,
>)
    requires
        catalog.wf(),
        blobs.wf(),
        consistent(catalog@, blobs@),
    ensures
        r is Ok <==> (is_object_id(id@) && has_id(catalog@, canon_id(id@)) && blob_has(
            blobs@,
            canon_id(id@),
        )),
        r matches Ok(p) ==> {
            &&& exists|i: int|
                0 <= i < catalog@.len() && (#[trigger] catalog@[i]).fileid@ == canon_id(id@) && p.0
                    == catalog@[i]
            &&& exists|j: int|
                0 <= j < blobs@.len() && (#[trigger] blobs@[j]).id@ == canon_id(id@) && p.1@
                    == blobs@[j].bytes@
        },
        r is Err ==> r == Err::<(FileMetadata, Vec<u8>), FileHandlingError>(
            FileHandlingError::FileNotFound,
        ),
{
    let rec = match catalog.get(id) {
        Ok(Some(rec)) => rec,
        Ok(None) => {
            return Err(FileHandlingError::FileNotFound);
        },
        Err(_) => {
            return Err(FileHandlingError::FileNotFound);
        },
    };
    match blobs.open_for_read(&rec.fileid) {
        Some(v) => {
            let bytes = copy_bytes(v);
            Ok((rec, bytes))
        },
        None => Err(FileHandlingError::FileNotFound),
    }
}

/// What a deletion leaves behind: for a known identifier, the record is gone
/// from the catalog and the blob, if one was there, is gone from the blob
/// store; everything else stands untouched. An unknown or malformed
/// identifier is reported not found and changes nothing, so deletion is
/// idempotent.
pub open spec fn delete_outcome(
    cat0: Seq<FileMetadata>,
    blobs0: Seq<Blob>,
    id: Seq<char>,
    cat1: Seq<FileMetadata>,
    blobs1: Seq<Blob>,
    r: Result<(), FileHandlingError>,
) -> bool {
    if is_object_id(id) && has_id(cat0, canon_id(id)) {
        &&& r is Ok
        &&& exists|i: int|
            0 <= i < cat0.len() && (#[trigger] cat0[i]).fileid@ == canon_id(id) && cat1
                == cat0.remove(i)
        &&& !has_id(cat1, canon_id(id))
        &&& !blob_has(blobs1, canon_id(id))
        &&& (blob_has(blobs0, canon_id(id)) ==> exists|j: int|
            0 <= j < blobs0.len() && (#[trigger] blobs0[j]).id@ == canon_id(id) && blobs1
                == blobs0.remove(j))
        &&& (!blob_has(blobs0, canon_id(id)) ==> blobs1 == blobs0)
    } else {
        &&& r == Err::<(), FileHandlingError>(FileHandlingError::FileNotFound)
        &&& cat1 == cat0
        &&& blobs1 == blobs0
    }
}

/// Drives a deletion: remove the metadata record first; only if one existed,
/// remove the blob. An absent record is reported not found without touching
/// the blob store.
pub fn delete_file(catalog: &mut FileMetadatas, blobs: &mut BlobStore, id: &String) -> (r: Result<
    (),
    FileHandlingError,
>)
    requires
        old(catalog).wf(),
        old(blobs).wf(),
        consistent(old(catalog)@, old(blobs)@),
    ensures
        final(catalog).wf(),
        final(blobs).wf(),
        consistent(final(catalog)@, final(blobs)@),
        delete_outcome(old(catalog)@, old(blobs)@, id@, final(catalog)@, final(blobs)@, r),
{
    let ghost cat0 = old(catalog)@;
    let ghost b0 = old(blobs)@;
    let rec = match catalog.get(id) {
        Ok(Some(rec)) => rec,
        Ok(None) => {
            return Err(FileHandlingError::FileNotFound);
        },
        Err(_) => {
            return Err(FileHandlingError::FileNotFound);
        },
    };
    let _ = match catalog.delete(id) {
        Ok(b) => b,
        Err(_) => false,
    };
    let _ = blobs.delete(&rec.fileid);
    proof {
        let cat1 = catalog@;
        let b1 = blobs@;
        let cid = canon_id(id@);
        assert(rec.fileid@ == cid);
        let i = choose|i: int|
            0 <= i < cat0.len() && (#[trigger] cat0[i]).fileid@ == cid && cat1 == cat0.remove(i);
        assert forall|q: int| 0 <= q < b1.len() implies has_id(cat1, (#[trigger] b1[q]).id@) by {
            let q0: int = if blob_has(b0, cid) {
                let j = choose|j: int|
                    0 <= j < b0.len() && (#[trigger] b0[j]).id@ == cid && b1 == b0.remove(j);
                if q < j {
                    q
                } else {
                    q + 1
                }
            } else {
                q
            };
            assert(b1[q] == b0[q0]);
            assert(has_id(cat0, b0[q0].id@));
            assert(b1[q].id@ != cid);
            let p = choose|p: int|
                0 <= p < cat0.len() && (#[trigger] cat0[p]).fileid@ == b0[q0].id@;
            assert(p != i);
            let p1: int = if p < i {
                p
            } else {
                p - 1
            };
            assert(cat1[p1] == cat0[p]);
            assert(has_id(cat1, b1[q].id@));
        }
        assert forall|p1: int|
            0 <= p1 < cat1.len() && (#[trigger] cat1[p1]).size > 0 implies exists|q: int|
                0 <= q < b1.len() && (#[trigger] b1[q]).id@ == cat1[p1].fileid@
                    && b1[q].bytes@.len() == cat1[p1].size by {
            let p0: int = if p1 < i {
                p1
            } else {
                p1 + 1
            };
            assert(cat1[p1] == cat0[p0]);
            assert(p0 != i);
            let q = choose|q: int|
                0 <= q < b0.len() && (#[trigger] b0[q]).id@ == cat0[p0].fileid@
                    && b0[q].bytes@.len() == cat0[p0].size;
            assert(cat0[p0].fileid@ != cid);
            if blob_has(b0, cid) {
                let j = choose|j: int|
                    0 <= j < b0.len() && (#[trigger] b0[j]).id@ == cid && b1 == b0.remove(j);
                assert(q != j);
                let q1: int = if q < j {
                    q
                } else {
                    q - 1
                };
                assert(b1[q1] == b0[q]);
            } else {
                assert(b1[q] == b0[q]);
            }
        }
    }
    Ok(())
}

/// Hands out the full listing of metadata records; content bytes stay in
/// the blob store.
pub fn list_files(catalog: &FileMetadatas) -> (r: Result<Vec<FileMetadata>, FileHandlingError>)
    ensures
        r matches Ok(v) && v@ == catalog@,
{
    match catalog.list() {
        Ok(v) => Ok(v),
        Err(e) => Err(FileHandlingError::DatabaseError(e)),
    }
}

proof fn upload_finish_proof(
    cat0: Seq<FileMetadata>,
    b0: Seq<Blob>,
    fields: Seq<MultipartField>,
    i: int,
    cat1: Seq<FileMetadata>,
    b1: Seq<Blob>,
    r: Result<String, FileHandlingError>,
)
    requires
        is_first_data(fields, i),
        upload_field_outcome(cat0, b0, fields[i], cat1, b1, r),
        r is Err ==> cat1 == cat0 && b1 == b0,
    ensures
        upload_outcome(cat0, b0, fields, cat1, b1, r),
{
    assert(fields[i].name@ == "data"@);
    assert(!no_data_field(fields));
    assert forall|k: int| is_first_data(fields, k) implies upload_field_outcome(
        cat0,
        b0,
        #[trigger] fields[k],
        cat1,
        b1,
        r,
    ) by {
        lemma_first_data_unique(fields, i, k);
    }
}

} // verus!
