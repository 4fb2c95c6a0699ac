//! A pluggable storage-backend abstraction for a WebDAV-style file server.
//!
//! The crate defines the capability-based contract that a storage backend
//! implements: a closed error taxonomy, a metadata snapshot model with a
//! derived entity tag, open-options intent flags, file-handle and
//! directory-enumeration contracts, an extended-property model, and the
//! filesystem contract itself, in which a small set of operations is
//! required and every other operation defaults to `NotImplemented`.

pub mod etag;
pub mod fs;
pub mod memfs;
