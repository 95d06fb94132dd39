use video_storage::blob::BlobStore;
use video_storage::catalog::FileMetadatas;
use video_storage::coordinator::{delete_file, get_file, list_files, upload_file, MultipartField};
use video_storage::error::{DatabaseError, FileHandlingError};
use video_storage::ident::{check_object_id, id_equal};
use video_storage::media::MimeType;

fn mime(t: &str, s: &str) -> MimeType {
    MimeType::new(t.to_string(), s.to_string())
}

fn data_field(filename: &str, t: &str, s: &str, chunks: Vec<Vec<u8>>) -> MultipartField {
    MultipartField {
        name: "data".to_string(),
        filename: Some(filename.to_string()),
        content_type: Some(mime(t, s)),
        chunks,
    }
}

fn fresh() -> (FileMetadatas, BlobStore) {
    (FileMetadatas::new(), BlobStore::new())
}

fn is_lower_hex_24(s: &str) -> bool {
    s.len() == 24 && s.chars().all(|c| c.is_ascii_digit() || ('a'..='f').contains(&c))
}

#[test]
fn upload_and_fetch_round_trip() {
    let (mut cat, mut blobs) = fresh();
    let fields = vec![data_field(
        "movie.mp4",
        "video",
        "mp4",
        vec![b"hello ".to_vec(), b"world".to_vec()],
    )];
    let id = upload_file(&mut cat, &mut blobs, &fields).unwrap();
    assert!(is_lower_hex_24(&id));
    let (rec, bytes) = get_file(&cat, &blobs, &id).unwrap();
    assert_eq!(rec.fileid, id);
    assert_eq!(rec.name, "movie.mp4");
    assert_eq!(rec.size, 11);
    assert_eq!(rec.mime.type_, "video");
    assert_eq!(rec.mime.subtype, "mp4");
    assert_eq!(bytes, b"hello world".to_vec());
}

#[test]
fn created_at_derives_from_identifier() {
    let (mut cat, mut blobs) = fresh();
    let fields = vec![data_field("clip.mpeg", "video", "mpeg", vec![b"x".to_vec()])];
    let id = upload_file(&mut cat, &mut blobs, &fields).unwrap();
    let (rec, _) = get_file(&cat, &blobs, &id).unwrap();
    assert_ne!(rec.created_at, rec.fileid);
    assert!(rec.created_at.contains('T'));
    assert!(rec.created_at.contains(':'));
}

#[test]
fn empty_stream_accepted_with_size_zero() {
    let (mut cat, mut blobs) = fresh();
    let fields = vec![data_field("empty.mp4", "video", "mp4", vec![])];
    let id = upload_file(&mut cat, &mut blobs, &fields).unwrap();
    let (rec, bytes) = get_file(&cat, &blobs, &id).unwrap();
    assert_eq!(rec.size, 0);
    assert!(bytes.is_empty());
}

#[test]
fn unsupported_type_rejected_before_any_record() {
    let (mut cat, mut blobs) = fresh();
    let fields = vec![data_field("notes.txt", "text", "plain", vec![b"abc".to_vec()])];
    let r = upload_file(&mut cat, &mut blobs, &fields);
    assert_eq!(r, Err(FileHandlingError::UnsupportedMediaType));
    assert_eq!(FileHandlingError::UnsupportedMediaType.status_code(), 415);
    assert!(list_files(&cat).unwrap().is_empty());
}

#[test]
fn duplicate_name_yields_one_success_one_conflict() {
    let (mut cat, mut blobs) = fresh();
    let first = vec![data_field("same.mp4", "video", "mp4", vec![b"a".to_vec()])];
    let second = vec![data_field("same.mp4", "video", "mp4", vec![b"b".to_vec()])];
    assert!(upload_file(&mut cat, &mut blobs, &first).is_ok());
    let r = upload_file(&mut cat, &mut blobs, &second);
    assert_eq!(r, Err(FileHandlingError::FileExists));
    assert_eq!(FileHandlingError::FileExists.status_code(), 409);
    assert_eq!(list_files(&cat).unwrap().len(), 1);
}

#[test]
fn delete_removes_from_listing_and_fetch() {
    let (mut cat, mut blobs) = fresh();
    let fields = vec![data_field("gone.mp4", "video", "mp4", vec![b"bye".to_vec()])];
    let id = upload_file(&mut cat, &mut blobs, &fields).unwrap();
    assert_eq!(list_files(&cat).unwrap().len(), 1);
    assert!(delete_file(&mut cat, &mut blobs, &id).is_ok());
    assert!(list_files(&cat).unwrap().is_empty());
    assert!(matches!(get_file(&cat, &blobs, &id), Err(FileHandlingError::FileNotFound)));
    assert_eq!(
        delete_file(&mut cat, &mut blobs, &id),
        Err(FileHandlingError::FileNotFound)
    );
}

#[test]
fn delete_unknown_identifier_reports_not_found() {
    let (mut cat, mut blobs) = fresh();
    let well_formed = "0123456789abcdef01234567".to_string();
    let malformed = "not-an-identifier".to_string();
    assert_eq!(
        delete_file(&mut cat, &mut blobs, &well_formed),
        Err(FileHandlingError::FileNotFound)
    );
    assert_eq!(
        delete_file(&mut cat, &mut blobs, &malformed),
        Err(FileHandlingError::FileNotFound)
    );
    assert_eq!(FileHandlingError::FileNotFound.status_code(), 404);
}

#[test]
fn listing_counts_uploads_with_distinct_identifiers() {
    let (mut cat, mut blobs) = fresh();
    assert!(list_files(&cat).unwrap().is_empty());
    let names = ["a.mp4", "b.mp4", "c.mp4"];
    let mut ids = Vec::new();
    for n in names {
        let fields = vec![data_field(n, "video", "mp4", vec![n.as_bytes().to_vec()])];
        ids.push(upload_file(&mut cat, &mut blobs, &fields).unwrap());
    }
    let listing = list_files(&cat).unwrap();
    assert_eq!(listing.len(), 3);
    for i in 0..ids.len() {
        for j in 0..ids.len() {
            if i != j {
                assert_ne!(ids[i], ids[j]);
            }
        }
    }
}

#[test]
fn missing_data_field_rejected() {
    let (mut cat, mut blobs) = fresh();
    let none: Vec<MultipartField> = Vec::new();
    assert_eq!(
        upload_file(&mut cat, &mut blobs, &none),
        Err(FileHandlingError::RequiredFieldNotFound)
    );
    let other = vec![MultipartField {
        name: "metadata".to_string(),
        filename: Some("x.mp4".to_string()),
        content_type: Some(mime("video", "mp4")),
        chunks: vec![b"zzz".to_vec()],
    }];
    assert_eq!(
        upload_file(&mut cat, &mut blobs, &other),
        Err(FileHandlingError::RequiredFieldNotFound)
    );
    assert_eq!(FileHandlingError::RequiredFieldNotFound.status_code(), 400);
    assert!(list_files(&cat).unwrap().is_empty());
}

#[test]
fn missing_filename_or_content_type_rejected() {
    let (mut cat, mut blobs) = fresh();
    let no_filename = vec![MultipartField {
        name: "data".to_string(),
        filename: None,
        content_type: Some(mime("video", "mp4")),
        chunks: vec![],
    }];
    assert_eq!(
        upload_file(&mut cat, &mut blobs, &no_filename),
        Err(FileHandlingError::RequiredFieldNotFound)
    );
    let no_type = vec![MultipartField {
        name: "data".to_string(),
        filename: Some("y.mp4".to_string()),
        content_type: None,
        chunks: vec![],
    }];
    assert_eq!(
        upload_file(&mut cat, &mut blobs, &no_type),
        Err(FileHandlingError::RequiredFieldNotFound)
    );
}

#[test]
fn first_data_field_wins_and_others_are_drained() {
    let (mut cat, mut blobs) = fresh();
    let fields = vec![
        MultipartField {
            name: "comment".to_string(),
            filename: None,
            content_type: None,
            chunks: vec![b"ignored".to_vec()],
        },
        data_field("kept.mp4", "video", "mp4", vec![b"kept".to_vec()]),
        data_field("later.mp4", "video", "mp4", vec![b"later".to_vec()]),
    ];
    let id = upload_file(&mut cat, &mut blobs, &fields).unwrap();
    let (rec, bytes) = get_file(&cat, &blobs, &id).unwrap();
    assert_eq!(rec.name, "kept.mp4");
    assert_eq!(bytes, b"kept".to_vec());
    assert_eq!(list_files(&cat).unwrap().len(), 1);
}

#[test]
fn identifier_lookup_ignores_letter_case() {
    let (mut cat, mut blobs) = fresh();
    let fields = vec![data_field("case.mp4", "video", "mp4", vec![b"c".to_vec()])];
    let id = upload_file(&mut cat, &mut blobs, &fields).unwrap();
    let upper = id.to_uppercase();
    let (rec, _) = get_file(&cat, &blobs, &upper).unwrap();
    assert_eq!(rec.fileid, id);
}

#[test]
fn malformed_identifier_reads_as_not_found() {
    let (mut cat, mut blobs) = fresh();
    let fields = vec![data_field("m.mp4", "video", "mp4", vec![b"m".to_vec()])];
    upload_file(&mut cat, &mut blobs, &fields).unwrap();
    for bad in ["", "xyz", "0123456789abcdef0123456", "0123456789abcdef012345678",
        "0123456789abcdef0123456g"]
    {
        let bad = bad.to_string();
        assert!(matches!(get_file(&cat, &blobs, &bad), Err(FileHandlingError::FileNotFound)));
    }
}

#[test]
fn mime_allow_list_decides_admission() {
    assert!(mime("video", "mp4").is_admitted());
    assert!(mime("video", "mpeg").is_admitted());
    assert!(!mime("video", "avi").is_admitted());
    assert!(!mime("text", "mp4").is_admitted());
    assert!(!mime("text", "plain").is_admitted());
    assert!(!mime("", "").is_admitted());
}

#[test]
fn identifier_well_formedness_checks() {
    assert!(check_object_id("0123456789abcdef01234567"));
    assert!(check_object_id("0123456789ABCDEF01234567"));
    assert!(!check_object_id("0123456789abcdef0123456"));
    assert!(!check_object_id("0123456789abcdef012345678"));
    assert!(!check_object_id("0123456789abcdef0123456z"));
    assert!(!check_object_id(""));
    assert!(id_equal("0123456789ABCDEF01234567", "0123456789abcdef01234567"));
    assert!(!id_equal("0123456789abcdef01234567", "0123456789abcdef01234568"));
}

#[test]
fn catalog_operations_track_size_updates() {
    let mut cat = FileMetadatas::new();
    let m = mime("video", "mp4");
    let id = cat.create(&"direct.mp4".to_string(), &m).unwrap().unwrap();
    let rec = cat.get(&id).unwrap().unwrap();
    assert_eq!(rec.size, 0);
    assert!(cat.update_size(&id, 42).unwrap());
    let rec = cat.get(&id).unwrap().unwrap();
    assert_eq!(rec.size, 42);
    assert!(!cat.update_size(&"bogus".to_string(), 7).unwrap());
    assert_eq!(cat.create(&"direct.mp4".to_string(), &m).unwrap(), None);
    assert!(cat.delete(&id).unwrap());
    assert!(!cat.delete(&id).unwrap());
}

#[test]
fn error_status_codes_match_http_surface() {
    assert_eq!(FileHandlingError::RequiredFieldNotFound.status_code(), 400);
    assert_eq!(FileHandlingError::UnsupportedMediaType.status_code(), 415);
    assert_eq!(FileHandlingError::FileExists.status_code(), 409);
    assert_eq!(FileHandlingError::FileNotFound.status_code(), 404);
    assert_eq!(
        FileHandlingError::DatabaseError(DatabaseError::ObjectIdError).status_code(),
        500
    );
    assert_eq!(DatabaseError::ObjectIdError.status_code(), 500);
}

#[test]
fn catalog_create_with_fixed_identifier() {
    let mut cat = FileMetadatas::new();
    let m = mime("video", "mpeg");
    let fixed = "00112233445566778899aabb".to_string();
    let id = cat.create_with_id(fixed.clone(), &"fixed.mpeg".to_string(), &m).unwrap();
    assert_eq!(id, fixed);
    let rec = cat.get(&fixed).unwrap().unwrap();
    assert_eq!(rec.fileid, fixed);
    assert_eq!(rec.name, "fixed.mpeg");
    assert_eq!(rec.size, 0);
    let again = cat.create_with_id("ffeeddccbbaa998877665544".to_string(), &"fixed.mpeg".to_string(), &m);
    assert_eq!(again, None);
    assert_eq!(cat.list().unwrap().len(), 1);
}
