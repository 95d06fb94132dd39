//! Core of a small media-upload service.
//!
//! Clients submit binary uploads; each upload is kept as a blob of bytes
//! addressed by a generated identifier, with a metadata record (name, media
//! type, size, creation time) in a catalog. The ingestion coordinator
//! validates an incoming multipart payload, reserves an identifier in the
//! catalog, streams the bytes into the blob store, and reconciles the two
//! stores; deletion removes the record first and the blob second.

pub mod blob;
pub mod catalog;
pub mod coordinator;
pub mod error;
pub mod ident;
pub mod laws;
pub mod media;
pub mod text;
