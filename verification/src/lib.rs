//! An edge request router for an S3-compatible object store: resolves a
//! bucket from the incoming path or host under a configured addressing mode,
//! rewrites the path, and signs the outbound request with AWS Signature
//! Version 4 headers.

pub mod bytes;
pub mod hashes;
pub mod hex;
pub mod router;
pub mod sigv4;
pub mod time;
