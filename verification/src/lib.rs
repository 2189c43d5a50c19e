//! Core rules of a lazily synchronised remote file browser: path
//! normalisation, directory-entry typing, the client cache, request
//! correlation, snapshot assembly and chunked file transfer.

pub mod text;
pub mod entry;
pub mod path;
pub mod protocol;
pub mod cache;
pub mod router;
pub mod client;
pub mod meta;
pub mod snapshot;
pub mod service;
pub mod transfer;
