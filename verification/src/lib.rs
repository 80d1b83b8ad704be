//! A content-addressed upload gateway, verified.
//!
//! Bytes streamed in are hashed chunk by chunk while they are written to a
//! temporary object; once the stream is complete the object is promoted to a
//! key derived from its digest, and the temporary object is removed on every
//! path. The modules here hold the key derivation, the digest pipeline, a
//! store model, and the upload/download protocol over it.

pub mod digest;
pub mod gateway;
pub mod hexcode;
pub mod keys;
pub mod store;
