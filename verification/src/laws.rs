use crate::blob::{blob_has, Blob};
use crate::catalog::{distinct_ids, has_id, has_name, FileMetadata};
use crate::coordinator::{
    accepted_upload, consistent, delete_outcome, flat, is_first_data, upload_field_outcome,
    upload_outcome, MultipartField,
};
use crate::error::FileHandlingError;
use crate::ident::{canon_id, is_object_id};
use crate::media::MimeType;
use vstd::prelude::*;

verus! {

/// An accepted upload is immediately retrievable through its identifier:
/// the one record under it carries the submitted filename, the declared
/// content type and the exact byte count, and the one blob under it holds
/// exactly the submitted bytes, in order.
pub proof fn law_upload_round_trip(
    cat0: Seq<FileMetadata>,
    b0: Seq<Blob>,
    name: Seq<char>,
    m: MimeType,
    chunks: Seq<Vec<u8>>,
    cat1: Seq<FileMetadata>,
    b1: Seq<Blob>,
    id: Seq<char>,
)
    requires
        accepted_upload(cat0, b0, name, m, chunks, cat1, b1, id),
        distinct_ids(cat1),
        consistent(cat0, b0),
    ensures
        is_object_id(id),
        canon_id(id) == id,
        has_id(cat1, canon_id(id)),
        blob_has(b1, canon_id(id)),
        forall|i: int|
            0 <= i < cat1.len() && (#[trigger] cat1[i]).fileid@ == canon_id(id) ==> cat1[i].name@
                == name && cat1[i].mime.same_mime(m) && cat1[i].size == flat(chunks).len(),
        forall|j: int|
            0 <= j < b1.len() && (#[trigger] b1[j]).id@ == canon_id(id) ==> b1[j].bytes@ == flat(
                chunks,
            ),
{
    let last = cat1.len() - 1;
    assert(cat1[last].fileid@ == id);
    assert(has_id(cat1, id));
    let blast = b1.len() - 1;
    assert(b1[blast].id@ == id);
    assert(blob_has(b1, id));
    assert forall|i: int|
        0 <= i < cat1.len() && (#[trigger] cat1[i]).fileid@ == canon_id(id) implies cat1[i].name@
        == name && cat1[i].mime.same_mime(m) && cat1[i].size == flat(chunks).len() by {
        if i < last {
            assert(cat1[i].fileid@ != cat1[last].fileid@);
            assert(false);
        }
    }
    assert forall|j: int|
        0 <= j < b1.len() && (#[trigger] b1[j]).id@ == canon_id(id) implies b1[j].bytes@ == flat(
        chunks,
    ) by {
        if j < blast {
            assert(b1[j] == b0[j]);
            assert(has_id(cat0, b0[j].id@));
            assert(!has_id(cat0, id));
            assert(false);
        }
    }
}

/// An upload whose byte stream is empty is accepted like any other and
/// leaves a record of size zero over an empty blob.
pub proof fn law_empty_stream_size(
    cat0: Seq<FileMetadata>,
    b0: Seq<Blob>,
    name: Seq<char>,
    m: MimeType,
    chunks: Seq<Vec<u8>>,
    cat1: Seq<FileMetadata>,
    b1: Seq<Blob>,
    id: Seq<char>,
)
    requires
        accepted_upload(cat0, b0, name, m, chunks, cat1, b1, id),
        chunks.len() == 0,
    ensures
        cat1.last().size == 0,
        b1.last().bytes@ == Seq::<u8>::empty(),
{
    assert(flat(chunks) == Seq::<u8>::empty());
}

/// A content type off the allow-list is rejected before anything is
/// stored: the verdict is "unsupported media type" and both stores stand
/// exactly as they were, so the catalog's record count is unchanged.
pub proof fn law_rejected_type_stores_untouched(
    cat0: Seq<FileMetadata>,
    b0: Seq<Blob>,
    fields: Seq<MultipartField>,
    cat1: Seq<FileMetadata>,
    b1: Seq<Blob>,
    r: Result<String, FileHandlingError>,
    i: int,
)
    requires
        upload_outcome(cat0, b0, fields, cat1, b1, r),
        is_first_data(fields, i),
        fields[i].filename is Some,
        match fields[i].content_type {
            Some(m) => !m.admitted(),
            None => false,
        },
    ensures
        r == Err::<String, FileHandlingError>(FileHandlingError::UnsupportedMediaType),
        cat1 == cat0,
        b1 == b0,
        cat1.len() == cat0.len(),
{
    assert(upload_field_outcome(cat0, b0, fields[i], cat1, b1, r));
}

/// A name that is already in the catalog makes an otherwise valid upload a
/// conflict, and nothing is stored.
pub proof fn law_taken_name_conflicts(
    cat0: Seq<FileMetadata>,
    b0: Seq<Blob>,
    fields: Seq<MultipartField>,
    cat1: Seq<FileMetadata>,
    b1: Seq<Blob>,
    r: Result<String, FileHandlingError>,
    i: int,
)
    requires
        upload_outcome(cat0, b0, fields, cat1, b1, r),
        is_first_data(fields, i),
        (fields[i].filename matches Some(nm) && has_name(cat0, nm@)),
        match fields[i].content_type {
            Some(m) => m.admitted(),
            None => false,
        },
    ensures
        r == Err::<String, FileHandlingError>(FileHandlingError::FileExists),
        cat1 == cat0,
        b1 == b0,
{
    assert(upload_field_outcome(cat0, b0, fields[i], cat1, b1, r));
}

/// An accepted upload registers its filename in the catalog; together with
/// `law_taken_name_conflicts`, two uploads of one name yield at most one
/// success, whichever order they run in.
pub proof fn law_upload_registers_name(
    cat0: Seq<FileMetadata>,
    b0: Seq<Blob>,
    name: Seq<char>,
    m: MimeType,
    chunks: Seq<Vec<u8>>,
    cat1: Seq<FileMetadata>,
    b1: Seq<Blob>,
    id: Seq<char>,
)
    requires
        accepted_upload(cat0, b0, name, m, chunks, cat1, b1, id),
    ensures
        has_name(cat1, name),
{
    let last = cat1.len() - 1;
    assert(cat1[last].name@ == name);
}

/// Deleting a known identifier removes its record from every later listing
/// and its blob from the blob store, and the listing is exactly one record
/// shorter; a later fetch under it finds nothing.
pub proof fn law_delete_removes(
    cat0: Seq<FileMetadata>,
    b0: Seq<Blob>,
    id: Seq<char>,
    cat1: Seq<FileMetadata>,
    b1: Seq<Blob>,
    r: Result<(), FileHandlingError>,
)
    requires
        delete_outcome(cat0, b0, id, cat1, b1, r),
        is_object_id(id),
        has_id(cat0, canon_id(id)),
    ensures
        r is Ok,
        !has_id(cat1, canon_id(id)),
        !blob_has(b1, canon_id(id)),
        cat1.len() == cat0.len() - 1,
{
    let i = choose|i: int|
        0 <= i < cat0.len() && (#[trigger] cat0[i]).fileid@ == canon_id(id) && cat1 == cat0.remove(
            i,
        );
    assert(cat1.len() == cat0.len() - 1);
}

/// Deleting an unknown or malformed identifier is idempotent: it reports
/// not found and leaves both stores exactly as they were.
pub proof fn law_delete_unknown_idempotent(
    cat0: Seq<FileMetadata>,
    b0: Seq<Blob>,
    id: Seq<char>,
    cat1: Seq<FileMetadata>,
    b1: Seq<Blob>,
    r: Result<(), FileHandlingError>,
)
    requires
        delete_outcome(cat0, b0, id, cat1, b1, r),
        !(is_object_id(id) && has_id(cat0, canon_id(id))),
    ensures
        r == Err::<(), FileHandlingError>(FileHandlingError::FileNotFound),
        cat1 == cat0,
        b1 == b0,
{
}

/// Each accepted upload grows the listing by exactly one record, under a
/// fresh identifier, and the identifiers in the catalog stay pairwise
/// distinct; so after k accepted uploads from an empty catalog the listing
/// holds exactly k records, each with its own identifier.
pub proof fn law_upload_grows_listing(
    cat0: Seq<FileMetadata>,
    b0: Seq<Blob>,
    name: Seq<char>,
    m: MimeType,
    chunks: Seq<Vec<u8>>,
    cat1: Seq<FileMetadata>,
    b1: Seq<Blob>,
    id: Seq<char>,
)
    requires
        accepted_upload(cat0, b0, name, m, chunks, cat1, b1, id),
        distinct_ids(cat0),
    ensures
        cat1.len() == cat0.len() + 1,
        distinct_ids(cat1),
{
    let last = cat1.len() - 1;
    assert forall|i: int, j: int|
        0 <= i < j < cat1.len() implies (#[trigger] cat1[i]).fileid@ != (
    #[trigger] cat1[j]).fileid@ by {
        if j < last {
            assert(cat1[i] == cat0[i]);
            assert(cat1[j] == cat0[j]);
            assert(cat0[i].fileid@ != cat0[j].fileid@);
        } else {
            assert(cat1[i] == cat0[i]);
            assert(cat1[j].fileid@ == id);
            assert(!has_id(cat0, id));
            assert(cat0[i].fileid@ != id);
        }
    }
}

} // verus!
